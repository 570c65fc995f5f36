//! Exporting a trimmed copy of a saved replay, as a sibling bundle or as
//! a GIF. The kept ranges arrive already checked against the replay's
//! keyframes; the library cuts, joins and publishes them.
use vstd::prelude::*;
use crate::packager::files::{
    all_undone, call_ok, calls_since, creates, creates_none, extends, lemma_extends_trans, lemma_undone_attempt, lemma_undone_concat,
    lemma_undone_extends, FsCall, FsError, LoggedFiles, PackageFileSystem,
};
use crate::packager::manifest::{manifest_of, manifest_text};
use crate::packager::confine::{
    lemma_join_within, lemma_spared_extend, lemma_spared_more, lemma_within_more, stays_within, visible_spared, within,
};
use crate::packager::model::{METADATA_FILENAME, REPLAY_FILENAME};
use crate::packager::publish::{
    ends_with_publication, partial_name, publish, shown_taken, taken_below, BundleJob, MAX_NAME_SUFFIX,
};
use crate::packager::package::concat_error_of;
use crate::packager::runner::RunnerFailure;
use crate::paths::{join, path_join};
use crate::text::{decimal, err_text, error_view, join_text, text_result_view, u64_decimal, unit_view};

verus! {

/// One kept range of a replay, in seconds, carried as the IEEE-754 bit
/// patterns of its two ends: the library hands them to the cutter unread.
#[derive(Debug, Clone, Copy, PartialEq, Eq)]
pub struct KeptRange {
    pub start_bits: u64,
    pub end_bits: u64,
}

/// One run of the cutter or joiner: what it was handed and answered.
pub enum ExportCall {
    Trim { input: Seq<char>, range: KeptRange, output: Seq<char>, answer: Result<(), RunnerFailure> },
    Concat { manifest: Seq<char>, output: Seq<char>, answer: Result<(), RunnerFailure> },
}

/// Cuts and joins video files: the media tool behind a trimmed export,
/// driven through [`LoggedExport`].
pub trait ExportRunner {
    /// Stream-copies the range `range` of `input` into `output`.
    fn trim(&mut self, input: &str, range: KeptRange, output: &str) -> Result<(), RunnerFailure>;

    /// Stream-copies the files listed in the concat manifest at `manifest`
    /// into `output`.
    fn concat(&mut self, manifest: &str, output: &str) -> Result<(), RunnerFailure>;
}

/// A cutter and the history of its runs made through this handle: what
/// each was handed and answered, in order.
pub struct LoggedExport<R> {
    pub inner: R,
    history: Ghost<Seq<ExportCall>>,
}

impl<R: ExportRunner> LoggedExport<R> {
    /// The runs made so far through this handle, in order.
    pub closed spec fn runs(&self) -> Seq<ExportCall> {
        self.history@
    }

    /// A handle on `inner` with no run made yet.
    pub fn new(inner: R) -> (r: Self)
        ensures
            r.runs() == Seq::<ExportCall>::empty(),
    {
        LoggedExport { inner, history: Ghost(Seq::empty()) }
    }

    /// Cuts `range` of `input` into `output` (see [`ExportRunner::trim`]).
    pub fn trim(&mut self, input: &str, range: KeptRange, output: &str) -> (r: Result<(), RunnerFailure>)
        ensures
            final(self).runs() == old(self).runs().push(
                ExportCall::Trim { input: input@, range, output: output@, answer: r },
            ),
    {
        let r = self.inner.trim(input, range, output);
        self.history = Ghost(self.history@.push(ExportCall::Trim { input: input@, range, output: output@, answer: r }));
        r
    }

    /// Joins the files listed at `manifest` into `output` (see
    /// [`ExportRunner::concat`]).
    pub fn concat(&mut self, manifest: &str, output: &str) -> (r: Result<(), RunnerFailure>)
        ensures
            final(self).runs() == old(self).runs().push(ExportCall::Concat { manifest: manifest@, output: output@, answer: r }),
    {
        let r = self.inner.concat(manifest, output);
        self.history = Ghost(self.history@.push(ExportCall::Concat { manifest: manifest@, output: output@, answer: r }));
        r
    }
}

/// The scale and frame rate every GIF is rendered with.
pub const GIF_FILTER: &'static str = "fps=10,scale=640:-2:flags=lanczos";

/// One run of the GIF renderer: what it was handed and answered.
pub enum GifCall {
    Palettegen { input: Seq<char>, filter: Seq<char>, palette: Seq<char>, answer: Result<(), RunnerFailure> },
    Paletteuse {
        input: Seq<char>,
        palette: Seq<char>,
        filter: Seq<char>,
        output: Seq<char>,
        answer: Result<(), RunnerFailure>,
    },
}

/// Renders GIFs through a generated palette: the media tool behind a GIF
/// export, driven through [`LoggedGif`].
pub trait GifRunner {
    /// Generates the palette of `input` under `filter` into `palette`.
    fn palettegen(&mut self, input: &str, filter: &str, palette: &str) -> Result<(), RunnerFailure>;

    /// Renders `input` under `filter` with `palette` into the GIF `output`.
    fn paletteuse(&mut self, input: &str, palette: &str, filter: &str, output: &str) -> Result<(), RunnerFailure>;
}

/// A GIF renderer and the history of its runs made through this handle:
/// what each was handed and answered, in order.
pub struct LoggedGif<G> {
    pub inner: G,
    history: Ghost<Seq<GifCall>>,
}

impl<G: GifRunner> LoggedGif<G> {
    /// The runs made so far through this handle, in order.
    pub closed spec fn runs(&self) -> Seq<GifCall> {
        self.history@
    }

    /// A handle on `inner` with no run made yet.
    pub fn new(inner: G) -> (r: Self)
        ensures
            r.runs() == Seq::<GifCall>::empty(),
    {
        LoggedGif { inner, history: Ghost(Seq::empty()) }
    }

    /// Generates a palette (see [`GifRunner::palettegen`]).
    pub fn palettegen(&mut self, input: &str, filter: &str, palette: &str) -> (r: Result<(), RunnerFailure>)
        ensures
            final(self).runs() == old(self).runs().push(
                GifCall::Palettegen { input: input@, filter: filter@, palette: palette@, answer: r },
            ),
    {
        let r = self.inner.palettegen(input, filter, palette);
        self.history = Ghost(
            self.history@.push(GifCall::Palettegen { input: input@, filter: filter@, palette: palette@, answer: r }),
        );
        r
    }

    /// Renders a GIF with a palette (see [`GifRunner::paletteuse`]).
    pub fn paletteuse(&mut self, input: &str, palette: &str, filter: &str, output: &str) -> (r: Result<(), RunnerFailure>)
        ensures
            final(self).runs() == old(self).runs().push(
                GifCall::Paletteuse { input: input@, palette: palette@, filter: filter@, output: output@, answer: r },
            ),
    {
        let r = self.inner.paletteuse(input, palette, filter, output);
        self.history = Ghost(
            self.history@.push(
                GifCall::Paletteuse { input: input@, palette: palette@, filter: filter@, output: output@, answer: r },
            ),
        );
        r
    }
}

/// The error a failed cut is reported as.
pub open spec fn trim_error_of(f: RunnerFailure) -> Seq<char> {
    match f {
        RunnerFailure::Unavailable => "export_ffmpeg_unavailable"@,
        RunnerFailure::Failed => "export_trim_failed"@,
    }
}

/// The error a failed GIF step is reported as.
pub open spec fn gif_error_of(f: RunnerFailure) -> Seq<char> {
    match f {
        RunnerFailure::Unavailable => "export_ffmpeg_unavailable"@,
        RunnerFailure::Failed => "export_gif_failed"@,
    }
}

/// ` <suffix>` for a non-zero suffix, nothing for 0.
pub open spec fn suffix_text(suffix: u32) -> Seq<char> {
    if suffix == 0 {
        Seq::empty()
    } else {
        " "@ + decimal(suffix as nat)
    }
}

/// The name of a trimmed copy of bundle `source`: `<source> (trimmed)`,
/// then the suffix (see [`suffix_text`]).
pub open spec fn trimmed_name_of(source: Seq<char>, suffix: u32) -> Seq<char> {
    source + " (trimmed)"@ + suffix_text(suffix)
}

/// The name of a GIF of bundle `source`: `<source> (trimmed)`, the suffix
/// (see [`suffix_text`]), then `.gif`.
pub open spec fn trimmed_gif_name_of(source: Seq<char>, suffix: u32) -> Seq<char> {
    source + " (trimmed)"@ + suffix_text(suffix) + ".gif"@
}

fn suffix_string(suffix: u32) -> (r: String)
    ensures
        r@ == suffix_text(suffix),
{
    if suffix == 0 {
        String::new()
    } else {
        join_text(" ", u64_decimal(suffix as u64).as_str())
    }
}

/// The name of a trimmed copy (see [`trimmed_name_of`]).
pub fn trimmed_display_name(source_name: &str, suffix: u32) -> (r: String)
    ensures
        r@ == trimmed_name_of(source_name@, suffix),
{
    let a = join_text(source_name, " (trimmed)");
    join_text(a.as_str(), suffix_string(suffix).as_str())
}

/// The name of a GIF export (see [`trimmed_gif_name_of`]).
pub fn trimmed_gif_display_name(source_name: &str, suffix: u32) -> (r: String)
    ensures
        r@ == trimmed_gif_name_of(source_name@, suffix),
{
    let a = join_text(source_name, " (trimmed)");
    let b = join_text(a.as_str(), suffix_string(suffix).as_str());
    join_text(b.as_str(), ".gif")
}

/// The file each kept range is cut into: `<workspace>/segment-<i>.mp4`.
pub open spec fn cut_path(workspace: Seq<char>, i: int) -> Seq<char> {
    path_join(workspace, "segment-"@ + decimal(i as nat) + ".mp4"@)
}

/// The first failure among the cutter's answers, in order.
pub open spec fn first_trim_failure(trims: Seq<Result<(), RunnerFailure>>) -> Option<RunnerFailure>
    decreases trims.len(),
{
    if trims.len() == 0 {
        None
    } else {
        match first_trim_failure(trims.drop_last()) {
            Some(f) => Some(f),
            None => match trims.last() {
                Err(f) => Some(f),
                Ok(()) => None,
            },
        }
    }
}

/// What building a trimmed video of `count` ranges comes to for what the
/// cutter, the joiner and the disk answered: the first failed cut decides
/// the error; then a single cut is renamed into place, or several are
/// joined (writing the manifest, the concat, removing the manifest, then
/// the cuts); then the video must not be empty and must sync.
pub open spec fn trimmed_video_outcome(
    count: nat,
    trims: Seq<Result<(), RunnerFailure>>,
    renamed: bool,
    manifest_written: bool,
    concat: Result<(), RunnerFailure>,
    manifest_removed: bool,
    cuts_removed: bool,
    video_len: Option<u64>,
    video_synced: bool,
) -> Result<(), Seq<char>> {
    trimmed_video_outcome_after(
        count,
        first_trim_failure(trims),
        renamed,
        manifest_written,
        concat,
        manifest_removed,
        cuts_removed,
        video_len,
        video_synced,
    )
}

/// The same outcome, from the first cut that failed, if any.
pub open spec fn trimmed_video_outcome_after(
    count: nat,
    trim_failure: Option<RunnerFailure>,
    renamed: bool,
    manifest_written: bool,
    concat: Result<(), RunnerFailure>,
    manifest_removed: bool,
    cuts_removed: bool,
    video_len: Option<u64>,
    video_synced: bool,
) -> Result<(), Seq<char>> {
    if trim_failure is Some {
        Err(trim_error_of(trim_failure->0))
    } else if count == 1 && !renamed {
        Err("export_destination_unavailable"@)
    } else if count != 1 && !manifest_written {
        Err("export_destination_unavailable"@)
    } else if count != 1 && concat is Err {
        Err(concat_error_of(concat->Err_0))
    } else if count != 1 && (!manifest_removed || !cuts_removed) {
        Err("export_destination_unavailable"@)
    } else if video_len is None || video_len == Some(0u64) {
        Err("export_concat_failed"@)
    } else if !video_synced {
        Err("export_destination_unavailable"@)
    } else {
        Ok(())
    }
}

/// What building a trimmed video of `count` ranges comes to for the first
/// failed cut, if any, and the answers of the joiner and the disk (see
/// [`trimmed_video_outcome_after`]).
pub fn trimmed_video_result(
    count: usize,
    trim_failure: Option<RunnerFailure>,
    renamed: bool,
    manifest_written: bool,
    concat: Result<(), RunnerFailure>,
    manifest_removed: bool,
    cuts_removed: bool,
    video_len: Option<u64>,
    video_synced: bool,
) -> (r: Result<(), String>)
    ensures
        unit_view(r) == trimmed_video_outcome_after(
            count as nat,
            trim_failure,
            renamed,
            manifest_written,
            concat,
            manifest_removed,
            cuts_removed,
            video_len,
            video_synced,
        ),
{
    if let Some(f) = trim_failure {
        match f {
            RunnerFailure::Unavailable => Err("export_ffmpeg_unavailable".to_string()),
            RunnerFailure::Failed => Err("export_trim_failed".to_string()),
        }
    } else if count == 1 && !renamed {
        Err("export_destination_unavailable".to_string())
    } else if count != 1 && !manifest_written {
        Err("export_destination_unavailable".to_string())
    } else if count != 1 && concat.is_err() {
        match concat {
            Err(RunnerFailure::Unavailable) => Err("export_ffmpeg_unavailable".to_string()),
            _ => Err("export_concat_failed".to_string()),
        }
    } else if count != 1 && (!manifest_removed || !cuts_removed) {
        Err("export_destination_unavailable".to_string())
    } else if video_len.is_none() || video_len == Some(0u64) {
        Err("export_concat_failed".to_string())
    } else if !video_synced {
        Err("export_destination_unavailable".to_string())
    } else {
        Ok(())
    }
}

/// Whether `call` cut `range` of `input` into `output`, successfully.
pub open spec fn trimmed_ok(call: ExportCall, input: Seq<char>, range: KeptRange, output: Seq<char>) -> bool {
    call matches ExportCall::Trim { input: i, range: g, output: o, answer } && i == input && g == range && o == output
        && answer is Ok
}

/// Whether `call` joined the files listed in `manifest` into `output`,
/// successfully.
pub open spec fn joined_ok(call: ExportCall, manifest: Seq<char>, output: Seq<char>) -> bool {
    call matches ExportCall::Concat { manifest: m, output: o, answer } && m == manifest && o == output && answer is Ok
}

/// Whether the cutter and joiner runs from `before` to `after` are those
/// of a trimmed video of `ranges` of `input` built in `workspace` into
/// `output`, all succeeding: each range cut in order into its numbered
/// cut (see [`cut_path`]), then, for other than a single range, one join
/// of the cuts' manifest into `output`.
pub open spec fn trimmed_runs(
    before: Seq<ExportCall>,
    after: Seq<ExportCall>,
    input: Seq<char>,
    ranges: Seq<KeptRange>,
    workspace: Seq<char>,
    output: Seq<char>,
) -> bool {
    let n = before.len() as int;
    let count = ranges.len() as int;
    &&& after.len() == n + count + (if count == 1 { 0int } else { 1int })
    &&& forall|i: int| 0 <= i < n ==> #[trigger] after[i] == before[i]
    &&& forall|k: int| 0 <= k < count ==> #[trigger] trimmed_ok(after[n + k], input, ranges[k], cut_path(workspace, k))
    &&& count != 1 ==> joined_ok(after[n + count], path_join(workspace, "concat.txt"@), output)
}

/// Whether the cutter's runs from `before` to `after` begin by cutting
/// the first `m` of the `ranges` of `input` in order, successfully, into
/// their numbered cuts in `workspace` (see [`cut_path`]).
pub open spec fn cuts_ok(
    before: Seq<ExportCall>,
    after: Seq<ExportCall>,
    input: Seq<char>,
    ranges: Seq<KeptRange>,
    workspace: Seq<char>,
    m: int,
) -> bool {
    let n = before.len() as int;
    &&& 0 <= m <= ranges.len()
    &&& after.len() >= n + m
    &&& forall|i: int| 0 <= i < n ==> #[trigger] after[i] == before[i]
    &&& forall|k: int| 0 <= k < m ==> #[trigger] trimmed_ok(after[n + k], input, ranges[k], cut_path(workspace, k))
}

/// Whether the cut of range `m` failed after the ones before it succeeded
/// (see [`cuts_ok`]), nothing followed it, and `r` is that failure's code
/// (see [`trim_error_of`]).
pub open spec fn cut_failed_at(
    before: Seq<ExportCall>,
    after: Seq<ExportCall>,
    input: Seq<char>,
    ranges: Seq<KeptRange>,
    workspace: Seq<char>,
    m: int,
    r: Result<(), Seq<char>>,
) -> bool {
    let n = before.len() as int;
    &&& m < ranges.len()
    &&& cuts_ok(before, after, input, ranges, workspace, m)
    &&& after.len() == n + m + 1
    &&& after[n + m] matches ExportCall::Trim { input: i, range: g, output: o, answer } && i == input && g == ranges[m] && o
        == cut_path(workspace, m) && answer is Err && r == Err::<(), Seq<char>>(trim_error_of(answer->Err_0))
}

/// Whether a filesystem call of building a trimmed video succeeded: its
/// answer is a success, and a video's length is read and not 0.
pub open spec fn trim_call_ok(call: FsCall) -> bool {
    match call {
        FsCall::FileLen { answer, .. } => answer is Ok && answer != Ok::<u64, FsError>(0u64),
        _ => call_ok(call),
    }
}

/// The bytes of the concat manifest of the first `count` cuts in
/// `workspace`: the UTF-8 encoding of the manifest listing them in order.
pub open spec fn cuts_manifest_bytes(workspace: Seq<char>, count: nat) -> Seq<u8> {
    vstd::utf8::encode_utf8(manifest_of(Seq::new(count, |k: int| cut_path(workspace, k))))
}

/// Whether `call` is the `i`th filesystem call of building a trimmed video
/// of `count` cuts in `workspace` into `output`: for a single cut, its
/// rename onto `output`; for others, writing their concat manifest and,
/// once joined, removing it and each cut in order; then reading the
/// video's length and syncing it.
pub open spec fn trimmed_step(i: int, call: FsCall, workspace: Seq<char>, count: nat, output: Seq<char>) -> bool {
    let m = path_join(workspace, "concat.txt"@);
    let joined: int = if count == 1 { 1 } else { count + 2int };
    if count == 1 && i == 0 {
        call matches FsCall::Rename { from, to, .. } && from == cut_path(workspace, 0) && to == output
    } else if count != 1 && i == 0 {
        call matches FsCall::WriteSynced { path, bytes, .. } && path == m && bytes == cuts_manifest_bytes(workspace, count)
    } else if count != 1 && i == 1 {
        call matches FsCall::RemoveFile { path, .. } && path == m
    } else if count != 1 && 2 <= i < joined {
        call matches FsCall::RemoveFile { path, .. } && path == cut_path(workspace, i - 2)
    } else if i == joined {
        call matches FsCall::FileLen { path, .. } && path == output
    } else if i == joined + 1 {
        call matches FsCall::SyncFile { path, .. } && path == output
    } else {
        false
    }
}

/// Whether the filesystem calls of `log` from `start` on, the joiner's
/// runs `runs` and the result `r` of building a trimmed video of `count`
/// cuts fit together: the calls are the steps in order (see
/// [`trimmed_step`]), each made only when the ones before succeeded; the
/// build succeeds exactly when all steps were made and succeeded; a failed
/// step is the last call and decides the error (`export_concat_failed`
/// for an empty or unreadable video, `export_destination_unavailable`
/// otherwise); and stopping right after the manifest was written means the
/// join failed, with its code.
pub open spec fn trimmed_video_trace(
    log: Seq<FsCall>,
    start: int,
    runs: Seq<ExportCall>,
    workspace: Seq<char>,
    count: nat,
    output: Seq<char>,
    r: Result<(), Seq<char>>,
) -> bool {
    let n = log.len() - start;
    let full: int = if count == 1 { 3 } else { count + 4int };
    &&& 0 <= start <= log.len()
    &&& n <= full
    &&& forall|i: int| 0 <= i < n ==> #[trigger] trimmed_step(i, log[start + i], workspace, count, output)
    &&& forall|i: int| 0 <= i < n - 1 ==> #[trigger] trim_call_ok(log[start + i])
    &&& (r is Ok <==> n == full && trim_call_ok(log.last()))
    &&& r == Err::<(), Seq<char>>("export_destination_unavailable"@) ==> n > 0 && !trim_call_ok(log.last()) && !(log.last() is FileLen)
    &&& n > 0 && !trim_call_ok(log.last()) ==> r == (if log.last() is FileLen {
        Err::<(), Seq<char>>("export_concat_failed"@)
    } else {
        Err::<(), Seq<char>>("export_destination_unavailable"@)
    })
    &&& 0 < n < full && trim_call_ok(log.last()) ==> count != 1 && n == 1 && runs.len() > 0 && (runs.last() matches ExportCall::Concat {
        answer,
        ..
    } && answer is Err && r == Err::<(), Seq<char>>(concat_error_of(answer->Err_0)))
}

/// Whether the filesystem calls of `log` from `start` on are the first
/// steps of building a trimmed video (see [`trimmed_step`]), all
/// succeeded.
pub open spec fn trimmed_steps_ok(log: Seq<FsCall>, start: int, workspace: Seq<char>, count: nat, output: Seq<char>) -> bool {
    &&& 0 <= start <= log.len()
    &&& forall|i: int| 0 <= i < log.len() - start ==> #[trigger] trimmed_step(i, log[start + i], workspace, count, output)
    &&& forall|i: int| 0 <= i < log.len() - start ==> #[trigger] trim_call_ok(log[start + i])
}

/// One more step: the steps so far stay in place, and all of them but the
/// new one succeeded.
proof fn lemma_trimmed_step_more(
    before: Seq<FsCall>,
    after: Seq<FsCall>,
    start: int,
    workspace: Seq<char>,
    count: nat,
    output: Seq<char>,
)
    requires
        trimmed_steps_ok(before, start, workspace, count, output),
        extends(before, after),
        after.len() == before.len() + 1,
        trimmed_step(before.len() - start, after.last(), workspace, count, output),
    ensures
        forall|i: int| 0 <= i < after.len() - start ==> #[trigger] trimmed_step(i, after[start + i], workspace, count, output),
        forall|i: int| 0 <= i < after.len() - start - 1 ==> #[trigger] trim_call_ok(after[start + i]),
        trim_call_ok(after.last()) ==> trimmed_steps_ok(after, start, workspace, count, output),
{
    assert forall|i: int| 0 <= i < after.len() - start implies #[trigger] trimmed_step(i, after[start + i], workspace, count, output) by {
        if i < before.len() - start {
            assert(after[start + i] == before[start + i]);
        }
    }
    assert forall|i: int| 0 <= i < after.len() - start - 1 implies #[trigger] trim_call_ok(after[start + i]) by {
        assert(after[start + i] == before[start + i]);
    }
}

/// Whether `path` can hold a workspace's files: it is not empty and does
/// not end with `/`.
pub open spec fn workspace_path(path: Seq<char>) -> bool {
    path.len() > 0 && path.last() != '/'
}

/// A cut lies within its workspace.
proof fn lemma_cut_within(workspace: Seq<char>, i: int)
    requires
        workspace_path(workspace),
    ensures
        within(cut_path(workspace, i), workspace),
{
    reveal_strlit("segment-");
    let name = "segment-"@ + decimal(i as nat) + ".mp4"@;
    assert(name[0] == 's');
    lemma_join_within(workspace, name);
}

/// Cuts the kept `ranges` of `source` into `workspace` and joins them into
/// `output`: a single range is renamed into place, several are joined by a
/// concat manifest that lists the cuts in order, and the manifest and cuts
/// are removed after. An empty result fails with `export_concat_failed`,
/// a cut with its code (see [`trim_error_of`]), the join with its code,
/// the disk with `export_destination_unavailable`.
pub fn build_trimmed_video<R: ExportRunner, F: PackageFileSystem>(
    runner: &mut LoggedExport<R>,
    files: &mut LoggedFiles<F>,
    source: &str,
    workspace: &str,
    ranges: &Vec<KeptRange>,
    output: &str,
) -> (r: Result<(), String>)
    ensures
        r is Err ==> is_trim_error(r->Err_0@),
        extends(old(files).log(), final(files).log()),
        creates_none(final(files).log(), old(files).log().len() as int),
        r is Ok ==> trimmed_runs(old(runner).runs(), final(runner).runs(), source@, ranges@, workspace@, output@),
        cuts_ok(old(runner).runs(), final(runner).runs(), source@, ranges@, workspace@, ranges@.len() as int) || exists|m: int|
            #[trigger] cut_failed_at(old(runner).runs(), final(runner).runs(), source@, ranges@, workspace@, m, unit_view(r)),
        workspace_path(workspace@) && within(output@, workspace@) ==> stays_within(
            final(files).log(),
            old(files).log().len() as int,
            workspace@,
        ),
        trimmed_video_trace(
            final(files).log(),
            old(files).log().len() as int,
            final(runner).runs(),
            workspace@,
            ranges@.len(),
            output@,
            unit_view(r),
        ),
        final(files).log().len() == old(files).log().len() ==> exists|m: int|
            #[trigger] cut_failed_at(old(runner).runs(), final(runner).runs(), source@, ranges@, workspace@, m, unit_view(r)),
{
    let ghost confined = workspace_path(workspace@) && within(output@, workspace@);
    let ghost log0 = files.log();
    let ghost start = log0.len() as int;
    let ghost count_n: nat = ranges@.len();
    assert(trimmed_steps_ok(log0, start, workspace@, count_n, output@));
    proof {
        lemma_destination_code_distinct();
    }
    let ghost count = ranges@.len();
    let ghost runs0 = runner.runs();
    let ghost mut trims: Seq<Result<(), RunnerFailure>> = Seq::empty();
    let mut cuts: Vec<String> = Vec::new();
    let mut i: usize = 0;
    while i < ranges.len()
        invariant
            i <= ranges@.len(),
            count == ranges@.len(),
            cuts@.len() == i,
            trims.len() == i,
            first_trim_failure(trims) is None,
            forall|k: int| 0 <= k < i ==> (#[trigger] cuts@[k])@ == cut_path(workspace@, k),
            runs0 == old(runner).runs(),
            runner.runs().len() == runs0.len() + i,
            forall|j: int| 0 <= j < runs0.len() ==> #[trigger] runner.runs()[j] == runs0[j],
            forall|k: int|
                0 <= k < i ==> #[trigger] trimmed_ok(runner.runs()[runs0.len() + k], source@, ranges@[k], cut_path(workspace@, k)),
        decreases ranges@.len() - i,
    {
        let a = join_text("segment-", u64_decimal(i as u64).as_str());
        let name = join_text(a.as_str(), ".mp4");
        let cut = join(workspace, name.as_str());
        let ghost runs_before = runner.runs();
        match runner.trim(source, ranges[i], cut.as_str()) {
            Ok(()) => {},
            Err(RunnerFailure::Unavailable) => {
                proof {
                    lemma_destination_code_distinct();
                }
                let r = trimmed_video_result(ranges.len(), Some(RunnerFailure::Unavailable), true, true, Ok(()), true, true, Some(1), true);
                assert(cut@ == cut_path(workspace@, i as int));
                assert(cut_failed_at(runs0, runner.runs(), source@, ranges@, workspace@, i as int, unit_view(r)));
                let ghost t = trims.push(Err(RunnerFailure::Unavailable));
                assert(t.drop_last() =~= trims);
                assert(unit_view(r) == trimmed_video_outcome(count, t, true, true, Ok(()), true, true, Some(1), true));
                return r;
            },
            Err(RunnerFailure::Failed) => {
                proof {
                    lemma_destination_code_distinct();
                }
                let r = trimmed_video_result(ranges.len(), Some(RunnerFailure::Failed), true, true, Ok(()), true, true, Some(1), true);
                assert(cut@ == cut_path(workspace@, i as int));
                assert(cut_failed_at(runs0, runner.runs(), source@, ranges@, workspace@, i as int, unit_view(r)));
                let ghost t = trims.push(Err(RunnerFailure::Failed));
                assert(t.drop_last() =~= trims);
                assert(unit_view(r) == trimmed_video_outcome(count, t, true, true, Ok(()), true, true, Some(1), true));
                return r;
            },
        }
        proof {
            let t = trims.push(Ok(()));
            assert(t.drop_last() =~= trims);
            trims = t;
            assert(cut@ == cut_path(workspace@, i as int));
            assert(trimmed_ok(runner.runs()[runs0.len() + i], source@, ranges@[i as int], cut_path(workspace@, i as int)));
            assert forall|k: int|
                0 <= k < i + 1 implies #[trigger] trimmed_ok(runner.runs()[runs0.len() + k], source@, ranges@[k], cut_path(workspace@, k)) by {
                if k < i {
                    assert(runner.runs()[runs0.len() + k] == runs_before[runs0.len() + k]);
                }
            }
        }
        cuts.push(cut);
        i = i + 1;
    }
    let ghost single = cuts@.len() == 1;
    if cuts.len() == 1 {
        let renamed = files.rename(cuts[0].as_str(), output);
        proof {
            lemma_trimmed_step_more(log0, files.log(), start, workspace@, count_n, output@);
            if confined {
                lemma_cut_within(workspace@, 0);
                lemma_within_more(log0, files.log(), log0.len() as int, workspace@);
            }
        }
        if renamed.is_err() {
            let r = trimmed_video_result(ranges.len(), None, false, true, Ok(()), true, true, Some(1), true);
            assert(unit_view(r) == trimmed_video_outcome(count, trims, false, true, Ok(()), true, true, Some(1), true));
            return r;
        }
    } else {
        let manifest = join(workspace, "concat.txt");
        let text = manifest_text(&cuts);
        proof {
            assert(cuts@.map_values(|p: String| p@) =~= Seq::new(count_n, |k: int| cut_path(workspace@, k)));
        }
        let written = files.write_synced(manifest.as_str(), text.as_str().as_bytes());
        proof {
            lemma_trimmed_step_more(log0, files.log(), start, workspace@, count_n, output@);
            if confined {
                reveal_strlit("concat.txt");
                lemma_join_within(workspace@, "concat.txt"@);
                lemma_within_more(log0, files.log(), log0.len() as int, workspace@);
            }
        }
        if written.is_err() {
            let r = trimmed_video_result(ranges.len(), None, true, false, Ok(()), true, true, Some(1), true);
            assert(unit_view(r) == trimmed_video_outcome(count, trims, true, false, Ok(()), true, true, Some(1), true));
            return r;
        }
        match runner.concat(manifest.as_str(), output) {
            Ok(()) => {},
            Err(RunnerFailure::Unavailable) => {
                let r = trimmed_video_result(ranges.len(), None, true, true, Err(RunnerFailure::Unavailable), true, true, Some(1), true);
                assert(unit_view(r) == trimmed_video_outcome(count, trims, true, true, Err(RunnerFailure::Unavailable), true, true, Some(1), true));
                return r;
            },
            Err(RunnerFailure::Failed) => {
                let r = trimmed_video_result(ranges.len(), None, true, true, Err(RunnerFailure::Failed), true, true, Some(1), true);
                assert(unit_view(r) == trimmed_video_outcome(count, trims, true, true, Err(RunnerFailure::Failed), true, true, Some(1), true));
                return r;
            },
        }
        let ghost before_remove = files.log();
        let removed = files.remove_file(manifest.as_str());
        proof {
            lemma_trimmed_step_more(before_remove, files.log(), start, workspace@, count_n, output@);
            if confined {
                reveal_strlit("concat.txt");
                lemma_join_within(workspace@, "concat.txt"@);
                lemma_within_more(before_remove, files.log(), log0.len() as int, workspace@);
            }
        }
        if removed.is_err() {
            let r = trimmed_video_result(ranges.len(), None, true, true, Ok(()), false, true, Some(1), true);
            assert(unit_view(r) == trimmed_video_outcome(count, trims, true, true, Ok(()), false, true, Some(1), true));
            return r;
        }
        let mut j: usize = 0;
        while j < cuts.len()
            invariant
                j <= cuts@.len(),
                cuts@.len() != 1,
                count == cuts@.len(),
                count == ranges@.len(),
                first_trim_failure(trims) is None,
                extends(old(files).log(), files.log()),
                creates_none(files.log(), old(files).log().len() as int),
                cuts_ok(old(runner).runs(), runner.runs(), source@, ranges@, workspace@, ranges@.len() as int),
                log0 == old(files).log(),
                confined == (workspace_path(workspace@) && within(output@, workspace@)),
                confined ==> stays_within(files.log(), log0.len() as int, workspace@),
                forall|k: int| 0 <= k < cuts@.len() ==> (#[trigger] cuts@[k])@ == cut_path(workspace@, k),
                start == log0.len(),
                count_n == ranges@.len(),
                files.log().len() == start + 2 + j,
                trimmed_steps_ok(files.log(), start, workspace@, count_n, output@),
            decreases cuts@.len() - j,
        {
            let ghost before_cut = files.log();
            let cut_removed = files.remove_file(cuts[j].as_str());
            proof {
                lemma_trimmed_step_more(before_cut, files.log(), start, workspace@, count_n, output@);
                if confined {
                    lemma_cut_within(workspace@, j as int);
                    lemma_within_more(before_cut, files.log(), log0.len() as int, workspace@);
                }
            }
            if cut_removed.is_err() {
                let r = trimmed_video_result(ranges.len(), None, true, true, Ok(()), true, false, Some(1), true);
                assert(unit_view(r) == trimmed_video_outcome(count, trims, true, true, Ok(()), true, false, Some(1), true));
                return r;
            }
            j = j + 1;
        }
    }
    let ghost before_len = files.log();
    proof {
        assert(files.log().len() == start + (if count_n == 1 { 1int } else { count_n + 2int }));
        assert(trimmed_steps_ok(files.log(), start, workspace@, count_n, output@));
    }
    let length = files.file_len(output);
    proof {
        lemma_trimmed_step_more(before_len, files.log(), start, workspace@, count_n, output@);
        if confined {
            lemma_within_more(before_len, files.log(), log0.len() as int, workspace@);
        }
    }
    match length {
        Ok(size) => {
            if size == 0 {
                let r = trimmed_video_result(ranges.len(), None, true, true, Ok(()), true, true, Some(0), true);
                assert(unit_view(r) == trimmed_video_outcome(count, trims, true, true, Ok(()), true, true, Some(0), true));
                return r;
            }
        },
        Err(_) => {
            let r = trimmed_video_result(ranges.len(), None, true, true, Ok(()), true, true, None, true);
            assert(unit_view(r) == trimmed_video_outcome(count, trims, true, true, Ok(()), true, true, None, true));
            return r;
        },
    }
    let ghost before_sync = files.log();
    let synced = files.sync_file(output);
    proof {
        lemma_trimmed_step_more(before_sync, files.log(), start, workspace@, count_n, output@);
        if confined {
            lemma_within_more(before_sync, files.log(), log0.len() as int, workspace@);
        }
    }
    if synced.is_err() {
        let r = trimmed_video_result(ranges.len(), None, true, true, Ok(()), true, true, Some(1), false);
        assert(unit_view(r) == trimmed_video_outcome(count, trims, true, true, Ok(()), true, true, Some(1), false));
        return r;
    }
    let r = trimmed_video_result(ranges.len(), None, true, true, Ok(()), true, true, Some(1), true);
    assert(unit_view(r) == trimmed_video_outcome(count, trims, true, true, Ok(()), true, true, Some(1), true));
    r
}

/// Whether `e` is one of the codes building a trimmed video fails with.
pub open spec fn is_trim_error(e: Seq<char>) -> bool {
    e == "export_destination_unavailable"@ || e == "export_ffmpeg_unavailable"@ || e == "export_trim_failed"@
        || e == "export_concat_failed"@
}

/// Whether `e` is one of the codes writing a trimmed bundle fails with.
pub open spec fn is_trimmed_write_error(e: Seq<char>) -> bool {
    is_trim_error(e) || e == "export_metadata_failed"@
}

/// What writing a trimmed bundle comes to: the trimmed video's own
/// outcome when it failed, else writing the metadata, then syncing the
/// directory.
pub open spec fn trimmed_bundle_outcome(video: Result<(), Seq<char>>, metadata_written: bool, dir_synced: bool) -> Result<
    (),
    Seq<char>,
> {
    if video is Err {
        video
    } else if !metadata_written {
        Err("export_metadata_failed"@)
    } else if !dir_synced {
        Err("export_destination_unavailable"@)
    } else {
        Ok(())
    }
}

/// What writing a trimmed bundle comes to for the trimmed video's result
/// and the disk's answers (see [`trimmed_bundle_outcome`]).
pub fn trimmed_bundle_result(video: Result<(), String>, metadata_written: bool, dir_synced: bool) -> (r: Result<(), String>)
    ensures
        unit_view(r) == trimmed_bundle_outcome(unit_view(video), metadata_written, dir_synced),
{
    if video.is_err() {
        video
    } else if !metadata_written {
        Err("export_metadata_failed".to_string())
    } else if !dir_synced {
        Err("export_destination_unavailable".to_string())
    } else {
        Ok(())
    }
}

/// The metadata failure's code is none of the codes building a trimmed
/// video fails with.
proof fn lemma_metadata_code_distinct()
    ensures
        !is_trim_error("export_metadata_failed"@),
{
    reveal_strlit("export_metadata_failed");
    reveal_strlit("export_destination_unavailable");
    reveal_strlit("export_ffmpeg_unavailable");
    reveal_strlit("export_trim_failed");
    reveal_strlit("export_concat_failed");
    assert("export_metadata_failed"@.len() == 22);
    assert("export_destination_unavailable"@.len() == 30);
    assert("export_ffmpeg_unavailable"@.len() == 25);
    assert("export_trim_failed"@.len() == 18);
    assert("export_concat_failed"@.len() == 20);
}

/// The disk's error code differs from those of the media tools.
proof fn lemma_destination_code_distinct()
    ensures
        "export_destination_unavailable"@ != "export_ffmpeg_unavailable"@,
        "export_destination_unavailable"@ != "export_trim_failed"@,
        "export_destination_unavailable"@ != "export_concat_failed"@,
{
    reveal_strlit("export_destination_unavailable");
    reveal_strlit("export_ffmpeg_unavailable");
    reveal_strlit("export_trim_failed");
    reveal_strlit("export_concat_failed");
    assert("export_destination_unavailable"@.len() == 30);
    assert("export_ffmpeg_unavailable"@.len() == 25);
    assert("export_trim_failed"@.len() == 18);
    assert("export_concat_failed"@.len() == 20);
}

/// Whether `log` ends with a failed write of `metadata.json` into
/// `workspace` with `metadata`.
pub open spec fn metadata_write_failed(log: Seq<FsCall>, workspace: Seq<char>, metadata: Seq<u8>) -> bool {
    log.len() > 0 && (log.last() matches FsCall::WriteSynced { path, bytes, answer } && path == path_join(
        workspace,
        METADATA_FILENAME@,
    ) && bytes == metadata && answer is Err)
}

/// Whether `log` ends with a bundle's metadata written into `workspace`
/// with `metadata`, then the workspace synced, both succeeding.
pub open spec fn ends_with_metadata(log: Seq<FsCall>, workspace: Seq<char>, metadata: Seq<u8>) -> bool {
    let n = log.len() as int;
    &&& n >= 2
    &&& log[n - 2] matches FsCall::WriteSynced { path, bytes, answer } && path == path_join(workspace, METADATA_FILENAME@)
        && bytes == metadata && answer is Ok
    &&& log[n - 1] matches FsCall::SyncDir { path, answer } && path == workspace && answer is Ok
}

/// Writes a trimmed bundle into `workspace`: the trimmed `replay.mp4`
/// (see [`build_trimmed_video`]), then `metadata.json` holding `metadata`
/// (`export_metadata_failed` when it cannot be written), then a sync of
/// the directory.
pub fn write_trimmed_bundle<R: ExportRunner, F: PackageFileSystem>(
    runner: &mut LoggedExport<R>,
    files: &mut LoggedFiles<F>,
    source: &str,
    workspace: &str,
    ranges: &Vec<KeptRange>,
    metadata: &[u8],
) -> (r: Result<(), String>)
    ensures
        r is Err ==> is_trimmed_write_error(r->Err_0@),
        extends(old(files).log(), final(files).log()),
        creates_none(final(files).log(), old(files).log().len() as int),
        r is Ok ==> ends_with_metadata(final(files).log(), workspace@, metadata@),
        r is Ok ==> final(files).log().len() > old(files).log().len() + 1,
        r is Ok ==> trimmed_runs(
            old(runner).runs(),
            final(runner).runs(),
            source@,
            ranges@,
            workspace@,
            path_join(workspace@, REPLAY_FILENAME@),
        ),
        cuts_ok(old(runner).runs(), final(runner).runs(), source@, ranges@, workspace@, ranges@.len() as int) || exists|m: int|
            #[trigger] cut_failed_at(old(runner).runs(), final(runner).runs(), source@, ranges@, workspace@, m, unit_view(r)),
        unit_view(r) == Err::<(), Seq<char>>("export_metadata_failed"@) ==> metadata_write_failed(final(files).log(), workspace@, metadata@),
        workspace_path(workspace@) ==> stays_within(final(files).log(), old(files).log().len() as int, workspace@),
        trimmed_bundle_trace(
            final(files).log(),
            old(files).log().len() as int,
            final(runner).runs(),
            workspace@,
            ranges@.len(),
            metadata@,
            unit_view(r),
        ),
{
    let ghost log0 = files.log();
    let output = join(workspace, REPLAY_FILENAME);
    proof {
        if workspace_path(workspace@) {
            reveal_strlit("replay.mp4");
            lemma_join_within(workspace@, REPLAY_FILENAME@);
        }
    }
    let video = build_trimmed_video(runner, files, source, workspace, ranges, output.as_str());
    let ghost built = files.log();
    let ghost b = built.len() as int;
    let ghost v = unit_view(video);
    proof {
        lemma_metadata_code_distinct();
        assert(built.take(b) =~= built);
    }
    if video.is_err() {
        let r = trimmed_bundle_result(video, true, true);
        proof {
            assert(trimmed_video_trace(files.log().take(b), log0.len() as int, runner.runs(), workspace@, ranges@.len(), output@, v));
        }
        return r;
    }
    let metadata_path = join(workspace, METADATA_FILENAME);
    let ghost before_metadata = files.log();
    let metadata_written = files.write_synced(metadata_path.as_str(), metadata);
    proof {
        if workspace_path(workspace@) {
            reveal_strlit("metadata.json");
            lemma_join_within(workspace@, METADATA_FILENAME@);
            lemma_within_more(before_metadata, files.log(), log0.len() as int, workspace@);
        }
    }
    if metadata_written.is_err() {
        let r = trimmed_bundle_result(video, false, true);
        proof {
            assert(files.log().take(b) =~= built);
            assert(files.log()[b] == files.log().last());
            assert(trimmed_video_trace(files.log().take(b), log0.len() as int, runner.runs(), workspace@, ranges@.len(), output@, v));
        }
        return r;
    }
    proof {
        lemma_metadata_code_distinct();
    }
    let ghost written = files.log();
    let dir_synced = files.sync_dir(workspace).is_ok();
    proof {
        assert(files.log()[files.log().len() - 2] == written.last());
        assert(files.log().take(b) =~= built);
        assert(files.log()[b] == written.last());
        assert(trimmed_video_trace(files.log().take(b), log0.len() as int, runner.runs(), workspace@, ranges@.len(), output@, v));
        if workspace_path(workspace@) {
            lemma_within_more(written, files.log(), log0.len() as int, workspace@);
        }
    }
    trimmed_bundle_result(video, true, dir_synced)
}

/// Whether the calls of `log` from index `b` on, and the result `r`, are
/// how writing a trimmed bundle into `workspace` ends once building its
/// video came to `video`: a failed build ends it with its error; else
/// `metadata.json` is written with `metadata`, failing with
/// `export_metadata_failed`, and once written the folder is synced,
/// failing with `export_destination_unavailable`.
pub open spec fn trimmed_bundle_tail(
    log: Seq<FsCall>,
    b: int,
    workspace: Seq<char>,
    metadata: Seq<u8>,
    video: Result<(), Seq<char>>,
    r: Result<(), Seq<char>>,
) -> bool {
    if video is Err {
        log.len() == b && r == video
    } else {
        &&& log.len() > b
        &&& log[b] matches FsCall::WriteSynced { path, bytes, .. } && path == path_join(workspace, METADATA_FILENAME@) && bytes
            == metadata
        &&& if !call_ok(log[b]) {
            log.len() == b + 1 && r == Err::<(), Seq<char>>("export_metadata_failed"@)
        } else {
            &&& log.len() == b + 2
            &&& log[b + 1] matches FsCall::SyncDir { path, .. } && path == workspace
            &&& r == (if call_ok(log[b + 1]) {
                Ok::<(), Seq<char>>(())
            } else {
                Err::<(), Seq<char>>("export_destination_unavailable"@)
            })
        }
    }
}

/// Whether the filesystem calls of `log` from `start` on, the cutter's
/// runs `runs` and the result `r` are those of writing a trimmed bundle of
/// `count` cuts with `metadata` into `workspace`: the calls up to some
/// index build its `replay.mp4` (see [`trimmed_video_trace`]) and the rest
/// finish the bundle (see [`trimmed_bundle_tail`]).
pub open spec fn trimmed_bundle_trace(
    log: Seq<FsCall>,
    start: int,
    runs: Seq<ExportCall>,
    workspace: Seq<char>,
    count: nat,
    metadata: Seq<u8>,
    r: Result<(), Seq<char>>,
) -> bool {
    exists|b: int, video: Result<(), Seq<char>>|
        start <= b <= log.len() && #[trigger] trimmed_video_trace(
            log.take(b),
            start,
            runs,
            workspace,
            count,
            path_join(workspace, REPLAY_FILENAME@),
            video,
        ) && trimmed_bundle_tail(log, b, workspace, metadata, video, r)
}

/// Whether a trimmed bundle of `ranges` of `source` was written into
/// `workspace` with result `r`, the filesystem's log going from `before`
/// to `after` and the cutter's runs from `runs_before` to `runs_after`:
/// on success every range was cut in order and joined into the bundle's
/// `replay.mp4` (see [`trimmed_runs`]) and `metadata.json` was written
/// with `metadata`, then the folder synced; a failure is one of the codes
/// a trimmed write fails with.
pub open spec fn trimmed_bundle_wrote(
    before: Seq<FsCall>,
    after: Seq<FsCall>,
    runs_before: Seq<ExportCall>,
    runs_after: Seq<ExportCall>,
    source: Seq<char>,
    ranges: Seq<KeptRange>,
    workspace: Seq<char>,
    metadata: Seq<u8>,
    r: Result<(), Seq<char>>,
) -> bool {
    &&& r is Ok ==> trimmed_runs(runs_before, runs_after, source, ranges, workspace, path_join(workspace, REPLAY_FILENAME@))
        && ends_with_metadata(after, workspace, metadata) && after.len() > before.len() + 1
    &&& r is Err ==> is_trimmed_write_error(r->Err_0)
    &&& cuts_ok(runs_before, runs_after, source, ranges, workspace, ranges.len() as int) || exists|m: int|
        #[trigger] cut_failed_at(runs_before, runs_after, source, ranges, workspace, m, r)
    &&& r == Err::<(), Seq<char>>("export_metadata_failed"@) ==> metadata_write_failed(after, workspace, metadata)
    &&& trimmed_bundle_trace(after, before.len() as int, runs_after, workspace, ranges.len(), metadata, r)
}

/// A trimmed copy of a bundle being published.
struct TrimmedBundleJob<'a> {
    source_name: &'a str,
    source_replay: &'a str,
    ranges: &'a Vec<KeptRange>,
    metadata: &'a [u8],
}

impl<'a, R: ExportRunner, F: PackageFileSystem> BundleJob<F, LoggedExport<R>> for TrimmedBundleJob<'a> {
    closed spec fn name_of(&self, suffix: u32) -> Result<Seq<char>, Seq<char>> {
        Ok(trimmed_name_of(self.source_name@, suffix))
    }

    fn name(&self, suffix: u32) -> (r: Result<String, String>) {
        Ok(trimmed_display_name(self.source_name, suffix))
    }

    closed spec fn is_write_error(&self, e: Seq<char>) -> bool {
        is_trimmed_write_error(e)
    }

    closed spec fn wrote(
        &self,
        before: Seq<FsCall>,
        after: Seq<FsCall>,
        tools_before: LoggedExport<R>,
        tools_after: LoggedExport<R>,
        workspace: Seq<char>,
        r: Result<(), Seq<char>>,
    ) -> bool {
        trimmed_bundle_wrote(
            before,
            after,
            tools_before.runs(),
            tools_after.runs(),
            self.source_replay@,
            self.ranges@,
            workspace,
            self.metadata@,
            r,
        )
    }

    closed spec fn keeps(&self, before: LoggedExport<R>, after: LoggedExport<R>) -> bool {
        true
    }

    proof fn lemma_keeps_same(&self, tools: LoggedExport<R>) {
    }

    proof fn lemma_keeps_trans(&self, a: LoggedExport<R>, b: LoggedExport<R>, c: LoggedExport<R>) {
    }

    fn write(&self, tools: &mut LoggedExport<R>, files: &mut LoggedFiles<F>, workspace: &str) -> (r: Result<(), String>) {
        write_trimmed_bundle(tools, files, self.source_replay, workspace, self.ranges, self.metadata)
    }
}

/// Whether the calls of `log` from index `a` to index `b` (with
/// `start <= a <= b`) wrote a trimmed bundle of `ranges` of `source`
/// holding `metadata` into one of this process's workspaces for `name` in
/// `destination`, with result `r`, the cutter's runs going from
/// `runs_before` to `runs_after` (see [`trimmed_bundle_wrote`]).
pub open spec fn trimmed_in_workspace(
    log: Seq<FsCall>,
    start: int,
    a: int,
    b: int,
    runs_before: Seq<ExportCall>,
    runs_after: Seq<ExportCall>,
    destination: Seq<char>,
    name: Seq<char>,
    process_id: u32,
    nonce: u64,
    source: Seq<char>,
    ranges: Seq<KeptRange>,
    metadata: Seq<u8>,
    r: Result<(), Seq<char>>,
) -> bool {
    &&& start <= a <= b <= log.len()
    &&& trimmed_bundle_wrote(
        log.take(a),
        log.take(b),
        runs_before,
        runs_after,
        source,
        ranges,
        path_join(destination, partial_name(name, process_id, nonce)),
        metadata,
        r,
    )
}

/// Publishes the trimmed copy of bundle `source_name` (whose video is
/// `source_replay`) into `destination`: the destination is created, then
/// the copy is written and published under the first free trimmed name
/// (see [`trimmed_name_of`] and [`publish`]), its `metadata.json` holding
/// `metadata`. The published bundle's path is returned.
pub fn publish_trimmed<R: ExportRunner, F: PackageFileSystem>(
    runner: &mut LoggedExport<R>,
    files: &mut LoggedFiles<F>,
    destination: &str,
    source_name: &str,
    source_replay: &str,
    ranges: &Vec<KeptRange>,
    metadata: &[u8],
    process_id: u32,
    nonce: &mut u64,
) -> (r: Result<String, String>)
    ensures
        r matches Ok(path) ==> exists|suffix: u32|
            suffix <= MAX_NAME_SUFFIX && path@ == path_join(destination@, #[trigger] trimmed_name_of(source_name@, suffix))
                && trimmed_names_taken_below(final(files).log(), old(files).log().len() as int, destination@, process_id, source_name@, suffix)
                && ends_with_publication(final(files).log(), destination@, trimmed_name_of(source_name@, suffix), process_id),
        r matches Ok(path) ==> exists|a: int, runs_before: Seq<ExportCall>, name: Seq<char>, n0: u64|
            #[trigger] trimmed_in_workspace(
                final(files).log(),
                old(files).log().len() as int,
                a,
                final(files).log().len() - 4,
                runs_before,
                final(runner).runs(),
                destination@,
                name,
                process_id,
                n0,
                source_replay@,
                ranges@,
                metadata@,
                Ok(()),
            ) && path@ == path_join(destination@, name) && (final(files).log()[final(files).log().len() - 3] matches FsCall::Rename {
                from,
                to,
                ..
            } && from == path_join(destination@, partial_name(name, process_id, n0)) && to == path@),
        r is Err ==> is_trimmed_write_error(r->Err_0@),
        r matches Err(e) ==> e@ == "export_destination_unavailable"@ || exists|
            a: int,
            b: int,
            runs_before: Seq<ExportCall>,
            name: Seq<char>,
            n0: u64,
        |
            #[trigger] trimmed_in_workspace(
                final(files).log(),
                old(files).log().len() as int,
                a,
                b,
                runs_before,
                final(runner).runs(),
                destination@,
                name,
                process_id,
                n0,
                source_replay@,
                ranges@,
                metadata@,
                Err(e@),
            ),
        final(files).log().len() > old(files).log().len() && (final(files).log()[old(files).log().len() as int] matches FsCall::CreateDirAll {
            path,
            ..
        } && path == destination@),
        extends(old(files).log(), final(files).log()),
        all_undone(final(files).log(), old(files).log().len() as int),
        visible_spared(final(files).log(), old(files).log().len() as int, destination@),
{
    let ghost start = files.log();
    let made = files.create_dir_all(destination);
    proof {
        lemma_undone_extends(start, files.log(), start.len() as int);
        lemma_spared_more(start, files.log(), start.len() as int, destination@);
    }
    if made.is_err() {
        return Err("export_destination_unavailable".to_string());
    }
    let job = TrimmedBundleJob { source_name, source_replay, ranges, metadata };
    let ghost before_publish = files.log();
    let published = publish(files, destination, process_id, nonce, &job, runner);
    proof {
        lemma_extends_trans(start, before_publish, files.log());
        lemma_undone_concat(before_publish, files.log(), start.len() as int);
        lemma_spared_extend(before_publish, files.log(), start.len() as int, destination@);
    }
    proof {
        assert(files.log()[start.len() as int] == before_publish[start.len() as int]);
    }
    let (name, path) = match published {
        Ok(p) => p,
        Err(e) => {
            proof {
                if e@ != "export_destination_unavailable"@ {
                    assert(forall|k: u32| BundleJob::<F, LoggedExport<R>>::name_of(&job, k) is Ok);
                    let (a, b, t0, nm, n0) = choose|a: int, b: int, t0: LoggedExport<R>, nm: Seq<char>, n0: u64|
                        #[trigger] crate::packager::publish::wrote_workspace::<F, LoggedExport<R>, TrimmedBundleJob>(
                            &job,
                            files.log(),
                            before_publish.len() as int,
                            a,
                            b,
                            t0,
                            *runner,
                            destination@,
                            nm,
                            process_id,
                            n0,
                            Err(e@),
                        );
                    assert(trimmed_in_workspace(
                        files.log(),
                        start.len() as int,
                        a,
                        b,
                        t0.runs(),
                        runner.runs(),
                        destination@,
                        nm,
                        process_id,
                        n0,
                        source_replay@,
                        ranges@,
                        metadata@,
                        Err(e@),
                    ));
                }
            }
            return Err(e);
        },
    };
    proof {
        let (a, t0, n0) = choose|a: int, t0: LoggedExport<R>, n0: u64|
            #[trigger] crate::packager::publish::wrote_workspace::<F, LoggedExport<R>, TrimmedBundleJob>(
                &job,
                files.log(),
                before_publish.len() as int,
                a,
                files.log().len() - 4,
                t0,
                *runner,
                destination@,
                name@,
                process_id,
                n0,
                Ok(()),
            ) && (files.log()[files.log().len() - 3] matches FsCall::Rename { from, .. } && from == path_join(
                destination@,
                partial_name(name@, process_id, n0),
            ));
        assert(trimmed_in_workspace(
            files.log(),
            start.len() as int,
            a,
            files.log().len() - 4,
            t0.runs(),
            runner.runs(),
            destination@,
            name@,
            process_id,
            n0,
            source_replay@,
            ranges@,
            metadata@,
            Ok(()),
        ));
    }
    let ghost suffix = choose|suffix: u32|
        suffix <= MAX_NAME_SUFFIX && #[trigger] BundleJob::<F, LoggedExport<R>>::name_of(&job, suffix) == Ok::<Seq<char>, Seq<char>>(name@)
            && taken_below::<F, LoggedExport<R>, TrimmedBundleJob>(&job, files.log(), before_publish.len() as int, destination@, process_id, suffix);
    proof {
        assert(trimmed_name_of(source_name@, suffix) == name@);
        assert forall|k: u32| k < suffix implies #[trigger] shown_taken(
            files.log(),
            start.len() as int,
            destination@,
            trimmed_name_of(source_name@, k),
            process_id,
        ) by {
            assert(BundleJob::<F, LoggedExport<R>>::name_of(&job, k) is Ok);
            let i = choose|i: int|
                before_publish.len() <= i < files.log().len() && #[trigger] crate::packager::publish::shows_taken(
                    files.log()[i],
                    destination@,
                    trimmed_name_of(source_name@, k),
                    process_id,
                );
        }
        assert(trimmed_names_taken_below(files.log(), start.len() as int, destination@, process_id, source_name@, suffix));
    }
    Ok(path)
}

/// Whether `log`, from `start` on, shows each trimmed name of
/// `source_name` below `suffix` taken in `destination` (see
/// [`shown_taken`]).
pub open spec fn trimmed_names_taken_below(
    log: Seq<FsCall>,
    start: int,
    destination: Seq<char>,
    process_id: u32,
    source_name: Seq<char>,
    suffix: u32,
) -> bool {
    forall|k: u32| k < suffix ==> #[trigger] shown_taken(log, start, destination, trimmed_name_of(source_name, k), process_id)
}

/// Whether the renderer runs from `before` to `after` are those of a GIF
/// rendered in `workspace` from `input`, both succeeding: the palette
/// generated under [`GIF_FILTER`] into `palette.png`, then `input` rendered
/// under the same filter with that palette into `output.gif`.
pub open spec fn rendered(before: Seq<GifCall>, after: Seq<GifCall>, input: Seq<char>, workspace: Seq<char>) -> bool {
    let n = after.len() as int;
    let palette = path_join(workspace, "palette.png"@);
    &&& n == before.len() + 2
    &&& after.take(before.len() as int) == before
    &&& after[n - 2] matches GifCall::Palettegen { input: i, filter: f, palette: p, answer } && i == input && f == GIF_FILTER@
        && p == palette && answer is Ok
    &&& after[n - 1] matches GifCall::Paletteuse { input: i, palette: p, filter: f, output: o, answer } && i == input && p
        == palette && f == GIF_FILTER@ && o == path_join(workspace, "output.gif"@) && answer is Ok
}

/// Whether the renderer's runs from `before` to `after` and the
/// filesystem `calls` are those of rendering `input` into a GIF in
/// `workspace`, step by step, with result `r`: the palette is generated
/// under [`GIF_FILTER`] into `palette.png`; only if that succeeded is
/// `input` rendered with it into `output.gif`; only if that succeeded is
/// the GIF's length read. A failed step gives its code (see
/// [`gif_error_of`]), an unreadable or empty GIF `export_gif_failed`, and
/// otherwise the GIF's path comes back.
pub open spec fn palette_trace(
    before: Seq<GifCall>,
    after: Seq<GifCall>,
    calls: Seq<FsCall>,
    input: Seq<char>,
    workspace: Seq<char>,
    r: Result<Seq<char>, Seq<char>>,
) -> bool {
    let n = before.len() as int;
    let palette = path_join(workspace, "palette.png"@);
    let output = path_join(workspace, "output.gif"@);
    &&& after.len() > n
    &&& after.take(n) == before
    &&& after[n] matches GifCall::Palettegen { input: i, filter: f, palette: p, .. } && i == input && f == GIF_FILTER@ && p
        == palette
    &&& match after[n] {
        GifCall::Palettegen { answer: Err(fail), .. } => after.len() == n + 1 && calls.len() == 0 && r == Err::<
            Seq<char>,
            Seq<char>,
        >(gif_error_of(fail)),
        _ => {
            &&& after.len() == n + 2
            &&& after[n + 1] matches GifCall::Paletteuse { input: i, palette: p, filter: f, output: o, .. } && i == input && p
                == palette && f == GIF_FILTER@ && o == output
            &&& match after[n + 1] {
                GifCall::Paletteuse { answer: Err(fail), .. } => calls.len() == 0 && r == Err::<Seq<char>, Seq<char>>(
                    gif_error_of(fail),
                ),
                _ => {
                    &&& calls.len() == 1
                    &&& calls[0] matches FsCall::FileLen { path, .. } && path == output
                    &&& match calls[0] {
                        FsCall::FileLen { answer: Ok(len), .. } => if len > 0 {
                            r == Ok::<Seq<char>, Seq<char>>(output)
                        } else {
                            r == Err::<Seq<char>, Seq<char>>("export_gif_failed"@)
                        },
                        _ => r == Err::<Seq<char>, Seq<char>>("export_gif_failed"@),
                    }
                },
            }
        },
    }
}

/// Renders `trimmed_video` as a GIF inside `workspace`: a palette
/// (`palette.png`), then `output.gif` under [`GIF_FILTER`]. A step that
/// fails carries its code (see [`gif_error_of`]); an empty GIF fails with
/// `export_gif_failed`. The GIF's path is returned.
pub fn run_palette_pipeline<G: GifRunner, F: PackageFileSystem>(
    gif_runner: &mut LoggedGif<G>,
    files: &mut LoggedFiles<F>,
    workspace: &str,
    trimmed_video: &str,
) -> (r: Result<String, String>)
    ensures
        r matches Ok(p) ==> p@ == path_join(workspace@, "output.gif"@),
        r is Err ==> r->Err_0@ == "export_ffmpeg_unavailable"@ || r->Err_0@ == "export_gif_failed"@,
        extends(old(files).log(), final(files).log()),
        creates_none(final(files).log(), old(files).log().len() as int),
        r is Ok ==> rendered(old(gif_runner).runs(), final(gif_runner).runs(), trimmed_video@, workspace@),
        palette_trace(
            old(gif_runner).runs(),
            final(gif_runner).runs(),
            calls_since(old(files).log(), final(files).log()),
            trimmed_video@,
            workspace@,
            text_result_view(r),
        ),
{
    let ghost runs0 = gif_runner.runs();
    let ghost log0 = files.log();
    let palette = join(workspace, "palette.png");
    let generated = gif_runner.palettegen(trimmed_video, GIF_FILTER, palette.as_str());
    proof {
        assert(gif_runner.runs().take(runs0.len() as int) =~= runs0);
        assert(calls_since(log0, files.log()) =~= Seq::<FsCall>::empty());
    }
    match generated {
        Ok(()) => {},
        Err(RunnerFailure::Unavailable) => return Err("export_ffmpeg_unavailable".to_string()),
        Err(RunnerFailure::Failed) => return Err("export_gif_failed".to_string()),
    }
    let built = join(workspace, "output.gif");
    let ghost generated = gif_runner.runs();
    let used = gif_runner.paletteuse(trimmed_video, palette.as_str(), GIF_FILTER, built.as_str());
    proof {
        assert(gif_runner.runs().take(runs0.len() as int) =~= runs0);
        assert(gif_runner.runs()[runs0.len() as int] == generated.last());
    }
    match used {
        Ok(()) => {},
        Err(RunnerFailure::Unavailable) => return Err("export_ffmpeg_unavailable".to_string()),
        Err(RunnerFailure::Failed) => return Err("export_gif_failed".to_string()),
    }
    let length = files.file_len(built.as_str());
    proof {
        assert(calls_since(log0, files.log()) =~= seq![files.log().last()]);
    }
    match length {
        Ok(size) => {
            if size == 0 {
                return Err("export_gif_failed".to_string());
            }
        },
        Err(_) => return Err("export_gif_failed".to_string()),
    }
    proof {
        assert(gif_runner.runs()[gif_runner.runs().len() - 2] == generated.last());
        assert(gif_runner.runs().take(old(gif_runner).runs().len() as int) =~= old(gif_runner).runs());
    }
    Ok(built)
}

/// Whether some call of `log`, from `start` on, found a file at GIF name
/// `name` in `destination`.
pub open spec fn gif_taken(log: Seq<FsCall>, start: int, destination: Seq<char>, name: Seq<char>) -> bool {
    exists|i: int|
        start <= i < log.len() && #[trigger] log[i] == (FsCall::TryExists { path: path_join(destination, name), answer: Ok(true) })
}

/// Whether `log`, from `start` on, shows each trimmed GIF name of
/// `source_name` below `suffix` taken in `destination`.
pub open spec fn gif_names_taken_below(log: Seq<FsCall>, start: int, destination: Seq<char>, source_name: Seq<char>, suffix: u32) -> bool {
    forall|k: u32| k < suffix ==> #[trigger] gif_taken(log, start, destination, trimmed_gif_name_of(source_name, k))
}

/// Whether `log` ends with a GIF moved into `destination` as `target`: a
/// check that found nothing at `target`, the rename of the built GIF
/// file onto it, and a sync of the destination. No directory is involved.
pub open spec fn ends_with_gif_move(log: Seq<FsCall>, destination: Seq<char>, built_gif: Seq<char>, target: Seq<char>) -> bool {
    let n = log.len() as int;
    &&& n >= 3
    &&& log[n - 3] == FsCall::TryExists { path: target, answer: Ok(false) }
    &&& log[n - 2] matches FsCall::Rename { from, to, answer } && from == built_gif && to == target && answer is Ok
    &&& log[n - 1] matches FsCall::SyncDir { path, answer } && path == destination && answer is Ok
}

/// Whether `call` is one that publishing a GIF into `destination` makes:
/// creating the destination, checking whether a path exists, moving the
/// built GIF `built`, or syncing the destination. Nothing is removed,
/// written or renamed over but by that move.
pub open spec fn gif_publish_call(call: FsCall, destination: Seq<char>, built: Seq<char>) -> bool {
    match call {
        FsCall::CreateDirAll { path, .. } => path == destination,
        FsCall::TryExists { .. } => true,
        FsCall::Rename { from, .. } => from == built,
        FsCall::SyncDir { path, .. } => path == destination,
        _ => false,
    }
}

/// Moves the finished GIF `built_gif` into `destination` under the first
/// trimmed GIF name (see [`trimmed_gif_name_of`]) that no file holds yet,
/// suffix 0 to [`MAX_NAME_SUFFIX`]; a name taken between the check and the
/// move is skipped. The published path is returned.
pub fn publish_gif<F: PackageFileSystem>(files: &mut LoggedFiles<F>, destination: &str, source_name: &str, built_gif: &str) -> (r:
    Result<String, String>)
    ensures
        r matches Ok(path) ==> exists|suffix: u32|
            suffix <= MAX_NAME_SUFFIX && path@ == path_join(destination@, #[trigger] trimmed_gif_name_of(source_name@, suffix))
                && gif_names_taken_below(final(files).log(), old(files).log().len() as int, destination@, source_name@, suffix),
        r matches Ok(path) ==> ends_with_gif_move(final(files).log(), destination@, built_gif@, path@),
        r is Err ==> r->Err_0@ == "export_destination_unavailable"@,
        extends(old(files).log(), final(files).log()),
        creates_none(final(files).log(), old(files).log().len() as int),
        forall|j: int|
            old(files).log().len() <= j < final(files).log().len() ==> #[trigger] gif_publish_call(
                final(files).log()[j],
                destination@,
                built_gif@,
            ),
{
    let made = files.create_dir_all(destination);
    proof {
        assert(gif_publish_call(files.log().last(), destination@, built_gif@));
    }
    if made.is_err() {
        return Err("export_destination_unavailable".to_string());
    }
    let ghost start = old(files).log().len() as int;
    let ghost mut ev: Seq<int> = Seq::empty();
    let mut suffix: u32 = 0;
    while suffix <= MAX_NAME_SUFFIX
        invariant
            suffix <= MAX_NAME_SUFFIX + 1,
            start == old(files).log().len(),
            extends(old(files).log(), files.log()),
            creates_none(files.log(), old(files).log().len() as int),
            forall|j: int| start <= j < files.log().len() ==> #[trigger] gif_publish_call(files.log()[j], destination@, built_gif@),
            ev.len() == suffix,
            forall|k: int|
                0 <= k < suffix ==> start <= #[trigger] ev[k] < files.log().len() && files.log()[ev[k]] == (FsCall::TryExists {
                    path: path_join(destination@, trimmed_gif_name_of(source_name@, k as u32)),
                    answer: Ok(true),
                }),
        decreases MAX_NAME_SUFFIX + 1 - suffix,
    {
        let ghost top = files.log();
        let name = trimmed_gif_display_name(source_name, suffix);
        let target = join(destination, name.as_str());
        let taken = match files.try_exists(target.as_str()) {
            Ok(b) => b,
            Err(_) => return Err("export_destination_unavailable".to_string()),
        };
        if !taken {
            let ghost checked = files.log();
            let moved = files.rename(built_gif, target.as_str());
            let ghost after_move = files.log();
            match moved {
                Ok(()) => {
                    if files.sync_dir(destination).is_err() {
                        return Err("export_destination_unavailable".to_string());
                    }
                    proof {
                        let n = files.log().len() as int;
                        assert(files.log()[n - 3] == checked.last());
                        assert(files.log()[n - 2] == after_move.last());
                        assert forall|k: u32| k < suffix implies #[trigger] gif_taken(
                            files.log(),
                            start,
                            destination@,
                            trimmed_gif_name_of(source_name@, k),
                        ) by {
                            let i = ev[k as int];
                            assert(files.log()[i] == top[i]);
                        }
                        assert(gif_names_taken_below(files.log(), start, destination@, source_name@, suffix));
                    }
                    return Ok(target);
                },
                Err(_) => {
                    let now_taken = match files.try_exists(target.as_str()) {
                        Ok(b) => b,
                        Err(_) => false,
                    };
                    if !now_taken {
                        return Err("export_destination_unavailable".to_string());
                    }
                },
            }
        }
        proof {
            let i = files.log().len() - 1;
            assert(files.log()[i] == (FsCall::TryExists {
                path: path_join(destination@, trimmed_gif_name_of(source_name@, suffix)),
                answer: Ok(true),
            }));
            let d = ev.push(i);
            assert forall|k: int|
                0 <= k < suffix + 1 implies start <= #[trigger] d[k] < files.log().len() && files.log()[d[k]] == (FsCall::TryExists {
                    path: path_join(destination@, trimmed_gif_name_of(source_name@, k as u32)),
                    answer: Ok(true),
                }) by {
                if k < suffix {
                    assert(d[k] == ev[k]);
                    assert(files.log()[ev[k]] == top[ev[k]]);
                }
            }
            ev = d;
        }
        suffix = suffix + 1;
    }
    Err("export_destination_unavailable".to_string())
}

/// The scratch directory a GIF export works in:
/// `.<source>.gif-workspace-<pid>-<nonce>`.
pub open spec fn gif_workspace_name(source: Seq<char>, process_id: u32, nonce: u64) -> Seq<char> {
    "."@ + source + ".gif-workspace-"@ + decimal(process_id as nat) + "-"@ + decimal(nonce as nat)
}

/// The scratch directory of a GIF export in `destination` (see
/// [`gif_workspace_name`]).
pub fn gif_workspace(destination: &str, source_name: &str, process_id: u32, nonce: u64) -> (r: String)
    ensures
        r@ == path_join(destination@, gif_workspace_name(source_name@, process_id, nonce)),
{
    let a = join_text(".", source_name);
    let b = join_text(a.as_str(), ".gif-workspace-");
    let c = join_text(b.as_str(), u64_decimal(process_id as u64).as_str());
    let d = join_text(c.as_str(), "-");
    let name = join_text(d.as_str(), u64_decimal(nonce).as_str());
    join(destination, name.as_str())
}

/// Whether the runs of the cutter (`cuts_before` to `cuts_after`) and of
/// the renderer (`renders_before` to `renders_after`) and the filesystem
/// calls of `log` from `start` on are those of a GIF export of `ranges` of
/// `source` through the scratch `workspace`, with result `r`:
/// - the workspace is created first; when that fails nothing runs and the
///   result is `export_destination_unavailable`;
/// - the ranges are cut in order (see [`cuts_ok`]), or a cut failed and
///   its code is the result (see [`cut_failed_at`]);
/// - the renderer runs only once every range was cut, and then as
///   [`palette_trace`] says for some stretch of the calls, on
///   `trimmed.mp4` in the workspace; `export_gif_failed` comes from a
///   cut, or from that rendering;
/// - on success the rendered `output.gif` was moved into `destination`
///   (see [`ends_with_gif_move`]), right before the workspace's removal.
pub open spec fn gif_export_shown(
    cuts_before: Seq<ExportCall>,
    cuts_after: Seq<ExportCall>,
    renders_before: Seq<GifCall>,
    renders_after: Seq<GifCall>,
    log: Seq<FsCall>,
    start: int,
    source: Seq<char>,
    ranges: Seq<KeptRange>,
    workspace: Seq<char>,
    destination: Seq<char>,
    r: Result<String, String>,
) -> bool {
    &&& start < log.len()
    &&& log[start] matches FsCall::CreateDir { path, .. } && path == workspace
    &&& !call_ok(log[start]) ==> cuts_after == cuts_before && renders_after == renders_before && error_view(r) == Err::<
        (),
        Seq<char>,
    >("export_destination_unavailable"@)
    &&& call_ok(log[start]) ==> (cuts_ok(cuts_before, cuts_after, source, ranges, workspace, ranges.len() as int) || exists|
        m: int,
    | #[trigger] cut_failed_at(cuts_before, cuts_after, source, ranges, workspace, m, error_view(r)))
    &&& renders_after.len() > renders_before.len() ==> cuts_ok(cuts_before, cuts_after, source, ranges, workspace, ranges.len() as int)
        && exists|a: int, b: int, g: Result<Seq<char>, Seq<char>>|
        start <= a <= b <= log.len() && #[trigger] palette_trace(
            renders_before,
            renders_after,
            log.subrange(a, b),
            path_join(workspace, "trimmed.mp4"@),
            workspace,
            g,
        ) && (g is Err ==> error_view(r) == Err::<(), Seq<char>>(g->Err_0))
    &&& r matches Ok(path) ==> renders_after.len() > renders_before.len() && log.len() > 0 && ends_with_gif_move(
        log.drop_last(),
        destination,
        path_join(workspace, "output.gif"@),
        path@,
    )
}

/// Exports the kept `ranges` of bundle `source_name` (video
/// `source_replay`) as a GIF in `destination`: a scratch workspace (see
/// [`gif_workspace`], numbered from `nonce`, which is advanced) holds the
/// trimmed video and the palette pipeline's output, the GIF is published
/// (see [`publish_gif`]), and the workspace is removed on every way out.
pub fn export_gif_from<R: ExportRunner, G: GifRunner, F: PackageFileSystem>(
    export_runner: &mut LoggedExport<R>,
    gif_runner: &mut LoggedGif<G>,
    files: &mut LoggedFiles<F>,
    destination: &str,
    source_name: &str,
    source_replay: &str,
    ranges: &Vec<KeptRange>,
    process_id: u32,
    nonce: &mut u64,
) -> (r: Result<String, String>)
    ensures
        r matches Ok(path) ==> exists|suffix: u32|
            suffix <= MAX_NAME_SUFFIX && path@ == path_join(destination@, #[trigger] trimmed_gif_name_of(source_name@, suffix)),
        r is Err ==> is_trim_error(r->Err_0@) || r->Err_0@ == "export_gif_failed"@,
        *final(nonce) == old(nonce).wrapping_add(1),
        extends(old(files).log(), final(files).log()),
        final(files).log().last() matches FsCall::RemoveDirAll { path, .. } && path == path_join(
            destination@,
            gif_workspace_name(source_name@, process_id, *old(nonce)),
        ),
        all_undone(final(files).log(), old(files).log().len() as int),
        gif_export_shown(
            old(export_runner).runs(),
            final(export_runner).runs(),
            old(gif_runner).runs(),
            final(gif_runner).runs(),
            final(files).log(),
            old(files).log().len() as int,
            source_replay@,
            ranges@,
            path_join(destination@, gif_workspace_name(source_name@, process_id, *old(nonce))),
            destination@,
            r,
        ),
{
    let attempt = *nonce;
    *nonce = nonce.wrapping_add(1);
    let workspace = gif_workspace(destination, source_name, process_id, attempt);
    let ghost log0 = files.log();
    let made = files.create_dir(workspace.as_str());
    let ghost made_log = files.log();
    if made.is_err() {
        let _ = files.remove_dir_all(workspace.as_str());
        proof {
            assert(files.log()[log0.len() as int] == made_log.last());
        }
        return Err("export_destination_unavailable".to_string());
    }
    let trimmed = join(workspace.as_str(), "trimmed.mp4");
    let ghost l0 = files.log();
    let built = build_trimmed_video(export_runner, files, source_replay, workspace.as_str(), ranges, trimmed.as_str());
    let ghost l1 = files.log();
    let ghost mut l2 = l1;
    let ghost mut g: Result<Seq<char>, Seq<char>> = Ok(Seq::empty());
    let ghost cuts_done = export_runner.runs();
    let result = match built {
        Ok(()) => {
            let gif = run_palette_pipeline(gif_runner, files, workspace.as_str(), trimmed.as_str());
            proof {
                l2 = files.log();
                g = text_result_view(gif);
                lemma_extends_trans(l0, l1, l2);
            }
            match gif {
                Ok(built) => {
                    let published = publish_gif(files, destination, source_name, built.as_str());
                    proof {
                        lemma_extends_trans(l0, l2, files.log());
                    }
                    published
                },
                Err(e) => Err(e),
            }
        },
        Err(e) => Err(e),
    };
    let ghost l3 = files.log();
    let _ = files.remove_dir_all(workspace.as_str());
    proof {
        assert(files.log()[log0.len() as int] == made_log.last());
        assert(files.log().drop_last() =~= l3);
        assert(export_runner.runs() == cuts_done);
        if built is Ok {
            lemma_extends_trans(l2, l3, files.log());
            assert(files.log().subrange(l1.len() as int, l2.len() as int) =~= calls_since(l1, l2));
            assert(palette_trace(
                old(gif_runner).runs(),
                gif_runner.runs(),
                files.log().subrange(l1.len() as int, l2.len() as int),
                path_join(workspace@, "trimmed.mp4"@),
                workspace@,
                g,
            ));
        }
        lemma_extends_trans(old(files).log(), l0, l3);
        lemma_extends_trans(old(files).log(), l3, files.log());
        assert(creates_none(l3, l0.len() as int)) by {
            if built is Ok && l3 != l1 {
                assert forall|j: int| l0.len() <= j < l3.len() implies !creates(#[trigger] l3[j]) by {
                    if j < l1.len() {
                        assert(l3[j] == l1[j]);
                    }
                }
            }
        }
        assert forall|j: int| old(files).log().len() <= j < files.log().len() && j != old(files).log().len() implies !creates(
            #[trigger] files.log()[j],
        ) by {
            if j < l3.len() {
                assert(files.log()[j] == l3[j]);
            }
        }
        lemma_undone_attempt(old(files).log(), files.log(), old(files).log().len() as int, -1, -1, old(files).log().len() as int, files.log().len() - 1);
    }
    result
}

} // verus!
