//! The media tools the packager drives (ffprobe and ffmpeg), and where
//! their bundled copies live next to the application.
use vstd::prelude::*;
use crate::packager::model::BundleMediaDescription;
use crate::paths::{components, extension, extension_of, join, path_components, path_join};
use crate::text::{join_text, same_text};

verus! {

/// Why a media tool run failed.
#[derive(Debug, Clone, Copy, PartialEq, Eq, Structural)]
pub enum RunnerFailure {
    /// The tool could not be started.
    Unavailable,
    /// The tool ran and failed.
    Failed,
}

/// Probes and concatenates media files: the media tools behind
/// packaging, driven through [`LoggedFfmpeg`].
pub trait FfmpegRunner {
    /// The streams of the file at `input`.
    fn inspect(&mut self, input: &str) -> Result<BundleMediaDescription, RunnerFailure>;

    /// Stream-copies the files listed in the concat manifest at `manifest`
    /// into `output`.
    fn concat(&mut self, manifest: &str, output: &str) -> Result<(), RunnerFailure>;
}

/// Media tools and the history of the runs made through this handle: the
/// files probed, each with what the probe answered, and the concats run,
/// each with its manifest, output and answer, in order.
pub struct LoggedFfmpeg<R> {
    pub inner: R,
    probed: Ghost<Seq<(Seq<char>, Result<BundleMediaDescription, RunnerFailure>)>>,
    joined: Ghost<Seq<(Seq<char>, Seq<char>, Result<(), RunnerFailure>)>>,
}

impl<R: FfmpegRunner> LoggedFfmpeg<R> {
    /// The files probed so far through this handle, in order.
    pub closed spec fn probes(&self) -> Seq<Seq<char>> {
        self.probed@.map_values(|p: (Seq<char>, Result<BundleMediaDescription, RunnerFailure>)| p.0)
    }

    /// What each of those probes answered, in the same order.
    pub closed spec fn probe_answers(&self) -> Seq<Result<BundleMediaDescription, RunnerFailure>> {
        self.probed@.map_values(|p: (Seq<char>, Result<BundleMediaDescription, RunnerFailure>)| p.1)
    }

    /// The concats run so far through this handle, in order.
    pub closed spec fn concats(&self) -> Seq<(Seq<char>, Seq<char>, Result<(), RunnerFailure>)> {
        self.joined@
    }

    /// A handle on `inner` with no run made yet.
    pub fn new(inner: R) -> (r: Self)
        ensures
            r.probes() == Seq::<Seq<char>>::empty(),
            r.probe_answers() == Seq::<Result<BundleMediaDescription, RunnerFailure>>::empty(),
            r.concats() == Seq::<(Seq<char>, Seq<char>, Result<(), RunnerFailure>)>::empty(),
    {
        let r = LoggedFfmpeg { inner, probed: Ghost(Seq::empty()), joined: Ghost(Seq::empty()) };
        assert(r.probes() =~= Seq::<Seq<char>>::empty());
        assert(r.probe_answers() =~= Seq::<Result<BundleMediaDescription, RunnerFailure>>::empty());
        r
    }

    /// Probes the file at `input` (see [`FfmpegRunner::inspect`]).
    pub fn inspect(&mut self, input: &str) -> (r: Result<BundleMediaDescription, RunnerFailure>)
        ensures
            final(self).probes() == old(self).probes().push(input@),
            final(self).probe_answers() == old(self).probe_answers().push(r),
            final(self).concats() == old(self).concats(),
    {
        let r = self.inner.inspect(input);
        let ghost before = self.probed@;
        self.probed = Ghost(self.probed@.push((input@, r)));
        assert(self.probes() =~= before.map_values(
            |p: (Seq<char>, Result<BundleMediaDescription, RunnerFailure>)| p.0,
        ).push(input@));
        assert(self.probe_answers() =~= before.map_values(
            |p: (Seq<char>, Result<BundleMediaDescription, RunnerFailure>)| p.1,
        ).push(r));
        r
    }

    /// Joins the files listed at `manifest` into `output` (see
    /// [`FfmpegRunner::concat`]).
    pub fn concat(&mut self, manifest: &str, output: &str) -> (r: Result<(), RunnerFailure>)
        ensures
            final(self).concats() == old(self).concats().push((manifest@, output@, r)),
            final(self).probes() == old(self).probes(),
            final(self).probe_answers() == old(self).probe_answers(),
    {
        let r = self.inner.concat(manifest, output);
        self.joined = Ghost(self.joined@.push((manifest@, output@, r)));
        r
    }
}

/// Whether a path is an executable inside a macOS application bundle:
/// `<name>.app/Contents/MacOS/<executable>`.
pub open spec fn is_bundle_executable(path: Seq<char>) -> bool {
    let c = components(path);
    &&& c.len() >= 4
    &&& c[c.len() - 2] == "MacOS"@
    &&& c[c.len() - 3] == "Contents"@
    &&& extension_of(c[c.len() - 4]) == Some("app"@)
}

/// `s` without its trailing `/` characters.
pub open spec fn trim_trailing_separators(s: Seq<char>) -> Seq<char>
    decreases s.len(),
{
    if s.len() > 0 && s.last() == '/' {
        trim_trailing_separators(s.drop_last())
    } else {
        s
    }
}

/// `s` up to and including its last `/`; empty when it has none.
pub open spec fn through_last_separator(s: Seq<char>) -> Seq<char>
    decreases s.len(),
{
    if s.len() == 0 || s.last() == '/' {
        s
    } else {
        through_last_separator(s.drop_last())
    }
}

/// The directory holding a path: the path without its last component and
/// the separators around it (`/` for a component at the root, empty for a
/// bare name).
pub open spec fn parent_text(path: Seq<char>) -> Seq<char> {
    let head = through_last_separator(trim_trailing_separators(path));
    if head.len() == 0 {
        Seq::empty()
    } else if trim_trailing_separators(head).len() == 0 {
        seq!['/']
    } else {
        trim_trailing_separators(head)
    }
}

/// Whether `name` is one of the two bundled tools.
pub open spec fn is_sidecar_name(name: Seq<char>) -> bool {
    name == "ffmpeg"@ || name == "ffprobe"@
}

/// Where tool `name` lives for `executable`: next to it inside an
/// application bundle; otherwise, in a development build for a known
/// `target` triple, `<manifest_dir>/binaries/<name>-<target>`. Any other
/// name, or an unknown target outside a bundle, is
/// `export_ffmpeg_unavailable`.
pub open spec fn sidecar_path(
    executable: Seq<char>,
    name: Seq<char>,
    target: Option<Seq<char>>,
    manifest_dir: Seq<char>,
) -> Result<Seq<char>, Seq<char>> {
    if !is_sidecar_name(name) {
        Err("export_ffmpeg_unavailable"@)
    } else if is_bundle_executable(executable) {
        Ok(path_join(parent_text(executable), name))
    } else {
        match target {
            None => Err("export_ffmpeg_unavailable"@),
            Some(t) => Ok(path_join(path_join(manifest_dir, "binaries"@), name + "-"@ + t)),
        }
    }
}

/// Whether `executable` sits inside a macOS application bundle (see
/// [`is_bundle_executable`]).
pub fn is_macos_bundle_executable(executable: &str) -> (r: bool)
    ensures
        r == is_bundle_executable(executable@),
{
    let c = path_components(executable);
    let n = c.len();
    if n < 4 {
        return false;
    }
    if !same_text(c[n - 2].as_str(), "MacOS") || !same_text(c[n - 3].as_str(), "Contents") {
        return false;
    }
    match extension(c[n - 4].as_str()) {
        Some(e) => same_text(e.as_str(), "app"),
        None => false,
    }
}

fn trim_separators(s: &str) -> (r: String)
    ensures
        r@ == trim_trailing_separators(s@),
{
    let mut end: usize = s.unicode_len();
    proof {
        assert(s@.take(end as int) =~= s@);
    }
    while end > 0 && s.get_char(end - 1) == '/'
        invariant
            end <= s@.len(),
            trim_trailing_separators(s@) == trim_trailing_separators(s@.take(end as int)),
        decreases end,
    {
        proof {
            assert(s@.take(end as int).drop_last() =~= s@.take(end - 1));
        }
        end = end - 1;
    }
    proof {
        if end > 0 {
            assert(s@.take(end as int).last() == s@[end - 1]);
        }
    }
    prefix(s, end)
}

fn prefix(s: &str, end: usize) -> (r: String)
    requires
        end <= s@.len(),
    ensures
        r@ == s@.take(end as int),
{
    let mut r = String::new();
    let mut i: usize = 0;
    while i < end
        invariant
            end <= s@.len(),
            i <= end,
            r@ == s@.take(i as int),
        decreases end - i,
    {
        crate::text::push_char(&mut r, s.get_char(i));
        proof {
            assert(s@.take(i + 1) =~= s@.take(i as int).push(s@[i as int]));
        }
        i = i + 1;
    }
    r
}

fn head_through_separator(s: &str) -> (r: String)
    ensures
        r@ == through_last_separator(s@),
{
    let mut end: usize = s.unicode_len();
    proof {
        assert(s@.take(end as int) =~= s@);
    }
    while end > 0 && s.get_char(end - 1) != '/'
        invariant
            end <= s@.len(),
            through_last_separator(s@) == through_last_separator(s@.take(end as int)),
        decreases end,
    {
        proof {
            assert(s@.take(end as int).drop_last() =~= s@.take(end - 1));
        }
        end = end - 1;
    }
    proof {
        if end > 0 {
            assert(s@.take(end as int).last() == s@[end - 1]);
        }
    }
    prefix(s, end)
}

/// The directory holding `path` (see [`parent_text`]).
pub fn parent_of(path: &str) -> (r: String)
    ensures
        r@ == parent_text(path@),
{
    let trimmed = trim_separators(path);
    let head = head_through_separator(trimmed.as_str());
    if head.as_str().unicode_len() == 0 {
        return String::new();
    }
    let parent = trim_separators(head.as_str());
    if parent.as_str().unicode_len() == 0 {
        let mut root = String::new();
        crate::text::push_char(&mut root, '/');
        return root;
    }
    parent
}

/// Where tool `name` lives for `executable` (see [`sidecar_path`]).
/// `target` is the build's target triple when it is one the tools are
/// shipped for, and `manifest_dir` the source tree the tools are prepared
/// in for development builds.
pub fn resolve_sidecar_path(
    executable: &str,
    name: &str,
    target: Option<&str>,
    manifest_dir: &str,
) -> (r: Result<String, String>)
    ensures
        match r {
            Ok(p) => sidecar_path(
                executable@,
                name@,
                match target {
                    Some(t) => Some(t@),
                    None => None,
                },
                manifest_dir@,
            ) == Ok::<Seq<char>, Seq<char>>(p@),
            Err(e) => sidecar_path(
                executable@,
                name@,
                match target {
                    Some(t) => Some(t@),
                    None => None,
                },
                manifest_dir@,
            ) == Err::<Seq<char>, Seq<char>>(e@),
        },
{
    if !same_text(name, "ffmpeg") && !same_text(name, "ffprobe") {
        return Err("export_ffmpeg_unavailable".to_owned());
    }
    if is_macos_bundle_executable(executable) {
        let parent = parent_of(executable);
        return Ok(join(parent.as_str(), name));
    }
    match target {
        None => Err("export_ffmpeg_unavailable".to_owned()),
        Some(t) => {
            let binaries = join(manifest_dir, "binaries");
            let with_dash = join_text(name, "-");
            let file = join_text(with_dash.as_str(), t);
            proof {
                assert(file@ =~= name@ + "-"@ + t@);
            }
            Ok(join(binaries.as_str(), file.as_str()))
        },
    }
}

} // verus!
