//! Guarded operations on one bundle of the library: opening or revealing
//! its replay file, and moving the bundle to the Trash.
use vstd::prelude::*;
use crate::text::{err_text, unit_view};
use crate::library::guard::{is_safe_component, resolve_bundle_dir, resolve_replay_file};
use crate::library::thumbnail::{cache_forgotten, forget};
use crate::library::{DiskCall, LibraryDisk, LoggedDisk};
use crate::packager::model::REPLAY_FILENAME;
use crate::paths::{join, path_join};

verus! {

/// Moves a path to the operating system's Trash, answering why it could
/// not; driven through [`LoggedTrash`].
pub trait TrashMover {
    fn move_to_trash(&mut self, path: &str) -> Result<(), String>;
}

/// A Trash mover and the history of the paths handed to it through this
/// handle, each with its answer, in order.
pub struct LoggedTrash<M> {
    pub inner: M,
    history: Ghost<Seq<(Seq<char>, Result<(), Seq<char>>)>>,
}

impl<M: TrashMover> LoggedTrash<M> {
    /// The moves made so far through this handle, in order.
    pub closed spec fn moves(&self) -> Seq<(Seq<char>, Result<(), Seq<char>>)> {
        self.history@
    }

    /// A handle on `inner` with no move made yet.
    pub fn new(inner: M) -> (r: Self)
        ensures
            r.moves() == Seq::<(Seq<char>, Result<(), Seq<char>>)>::empty(),
    {
        LoggedTrash { inner, history: Ghost(Seq::empty()) }
    }

    /// Moves `path` to the Trash (see [`TrashMover::move_to_trash`]).
    pub fn move_to_trash(&mut self, path: &str) -> (r: Result<(), String>)
        ensures
            final(self).moves() == old(self).moves().push((path@, unit_view(r))),
    {
        let r = self.inner.move_to_trash(path);
        self.history = Ghost(self.history@.push((path@, unit_view(r))));
        r
    }
}

/// What handing a replay file to the desktop comes to: success, or
/// `failure` when the desktop could not do it.
pub open spec fn desktop_outcome(succeeded: bool, failure: Seq<char>) -> Result<(), Seq<char>> {
    if succeeded {
        Ok(())
    } else {
        Err(failure)
    }
}

/// What the desktop's answer comes to (see [`desktop_outcome`]).
pub fn desktop_result(succeeded: bool, failure: &str) -> (r: Result<(), String>)
    ensures
        unit_view(r) == desktop_outcome(succeeded, failure@),
{
    if succeeded {
        Ok(())
    } else {
        Err(failure.to_string())
    }
}

/// The replay file of bundle `id` in `destination`, when it is on disk.
/// An id that could leave the destination fails with `library_invalid_id`
/// before the disk is asked; a bundle whose replay file is not a file
/// fails with `library_replay_missing`.
fn replay_file_on_disk<D: LibraryDisk>(disk: &mut LoggedDisk<D>, destination: &str, id: &str) -> (r: Result<String, String>)
    ensures
        !is_safe_component(id@) ==> err_text(r) == Some("library_invalid_id"@),
        is_safe_component(id@) ==> match r {
            Ok(p) => p@ == path_join(path_join(destination@, id@), REPLAY_FILENAME@),
            Err(e) => e@ == "library_replay_missing"@,
        },
        !is_safe_component(id@) ==> final(disk).log() == old(disk).log(),
        is_safe_component(id@) ==> final(disk).log() == old(disk).log().push(
            DiskCall::IsFile { path: path_join(path_join(destination@, id@), REPLAY_FILENAME@), answer: r is Ok },
        )
{
    let file = match resolve_replay_file(destination, id) {
        Ok(f) => f,
        Err(e) => return Err(e),
    };
    if !disk.is_file(file.as_str()) {
        return Err("library_replay_missing".to_string());
    }
    Ok(file)
}

/// The file that Finder is to reveal, selected, for bundle `id`: its
/// replay file. Only a path returned here is handed to Finder, so an id
/// that could leave the destination (`library_invalid_id`, decided before
/// the disk is asked) or a bundle without its replay file
/// (`library_replay_missing`) never reaches it; what Finder answers comes
/// to [`desktop_outcome`] with `library_reveal_failed`.
pub fn reveal_bundle<D: LibraryDisk>(disk: &mut LoggedDisk<D>, destination: &str, id: &str) -> (r: Result<String, String>)
    ensures
        !is_safe_component(id@) ==> err_text(r) == Some("library_invalid_id"@),
        is_safe_component(id@) ==> match r {
            Ok(p) => p@ == path_join(path_join(destination@, id@), REPLAY_FILENAME@),
            Err(e) => e@ == "library_replay_missing"@,
        },
        !is_safe_component(id@) ==> final(disk).log() == old(disk).log(),
        is_safe_component(id@) ==> final(disk).log() == old(disk).log().push(
            DiskCall::IsFile { path: path_join(path_join(destination@, id@), REPLAY_FILENAME@), answer: r is Ok },
        )
{
    replay_file_on_disk(disk, destination, id)
}

/// The replay file that the default player is to open for bundle `id`,
/// under the same guard as [`reveal_bundle`]: an invalid id or a missing
/// file never starts a player; a player that cannot start comes to
/// [`desktop_outcome`] with `library_open_failed`.
pub fn open_replay_file<D: LibraryDisk>(disk: &mut LoggedDisk<D>, destination: &str, id: &str) -> (r: Result<String, String>)
    ensures
        !is_safe_component(id@) ==> err_text(r) == Some("library_invalid_id"@),
        is_safe_component(id@) ==> match r {
            Ok(p) => p@ == path_join(path_join(destination@, id@), REPLAY_FILENAME@),
            Err(e) => e@ == "library_replay_missing"@,
        },
        !is_safe_component(id@) ==> final(disk).log() == old(disk).log(),
        is_safe_component(id@) ==> final(disk).log() == old(disk).log().push(
            DiskCall::IsFile { path: path_join(path_join(destination@, id@), REPLAY_FILENAME@), answer: r is Ok },
        )
{
    replay_file_on_disk(disk, destination, id)
}

/// What a delete comes to for what the disk and the mover answered: a
/// bundle that is not a directory is `library_replay_missing`, else the
/// mover's answer.
pub open spec fn delete_outcome(is_dir: bool, moved: Result<(), Seq<char>>) -> Result<(), Seq<char>> {
    if !is_dir {
        Err("library_replay_missing"@)
    } else {
        moved
    }
}

/// What a delete comes to for the disk's and the mover's answers (see
/// [`delete_outcome`]).
pub fn delete_result(is_dir: bool, moved: Result<(), String>) -> (r: Result<(), String>)
    ensures
        unit_view(r) == delete_outcome(is_dir, unit_view(moved)),
{
    if !is_dir {
        Err("library_replay_missing".to_string())
    } else {
        moved
    }
}

/// Whether a delete of bundle `id` in `destination` came to `r` through
/// the disk calls from log `before` to log `after` and the Trash moves from
/// `moves_before` to `moves_after`: the bundle folder is checked to be a
/// directory, and when it is not the result is `library_replay_missing`
/// with nothing moved; else the replay file's stamp is read, the folder is
/// handed to the Trash once and its answer is the result, and after a
/// successful move with a cache directory and a stamp known, the replay
/// file's cached thumbnail is forgotten (see [`cache_forgotten`]).
pub open spec fn deleted(
    before: Seq<DiskCall>,
    after: Seq<DiskCall>,
    moves_before: Seq<(Seq<char>, Result<(), Seq<char>>)>,
    moves_after: Seq<(Seq<char>, Result<(), Seq<char>>)>,
    destination: Seq<char>,
    cache_dir: Option<&str>,
    id: Seq<char>,
    r: Result<(), Seq<char>>,
) -> bool {
    let bundle = path_join(destination, id);
    let replay_file = path_join(bundle, REPLAY_FILENAME@);
    let n = before.len() as int;
    &&& after.len() > n
    &&& after.take(n) == before
    &&& after[n] matches DiskCall::IsDir { path, answer } && path == bundle
    &&& match after[n] {
        DiskCall::IsDir { answer: false, .. } => after.len() == n + 1 && moves_after == moves_before && r == Err::<
            (),
            Seq<char>,
        >("library_replay_missing"@),
        _ => {
            &&& after.len() > n + 1
            &&& after[n + 1] matches DiskCall::FileStamp { path, .. } && path == replay_file
            &&& moves_after == moves_before.push((bundle, r))
            &&& match (cache_dir, after[n + 1]) {
                (Some(dir), DiskCall::FileStamp { answer: Some(stamp), .. }) => if r is Ok {
                    cache_forgotten(after, n + 2, dir@, replay_file, stamp.0, stamp.1)
                } else {
                    after.len() == n + 2
                },
                _ => after.len() == n + 2,
            }
        },
    }
}

/// Moves bundle `id` to the Trash: the id is guarded as in
/// [`reveal_bundle`] and a bundle that is not on disk fails with
/// `library_replay_missing`, both before the mover is called; otherwise
/// the mover is called once, with the bundle's folder, and its answer is
/// returned as it gave it. After a successful move the bundle's cached
/// thumbnail is forgotten when a cache directory is known.
pub fn delete_bundle<D: LibraryDisk, M: TrashMover>(
    disk: &mut LoggedDisk<D>,
    destination: &str,
    cache_dir: Option<&str>,
    id: &str,
    mover: &mut LoggedTrash<M>,
) -> (r: Result<(), String>)
    ensures
        !is_safe_component(id@) ==> err_text(r) == Some("library_invalid_id"@) && final(mover).moves() == old(mover).moves(),
        !is_safe_component(id@) ==> final(disk).log() == old(disk).log(),
        is_safe_component(id@) ==> deleted(
            old(disk).log(),
            final(disk).log(),
            old(mover).moves(),
            final(mover).moves(),
            destination@,
            cache_dir,
            id@,
            unit_view(r),
        ),
{
    let ghost d0 = disk.log();
    let bundle = match resolve_bundle_dir(destination, id) {
        Ok(b) => b,
        Err(e) => return Err(e),
    };
    if !disk.is_dir(bundle.as_str()) {
        assert(disk.log().take(d0.len() as int) =~= d0);
        return delete_result(false, Ok(()));
    }
    let replay_file = join(bundle.as_str(), REPLAY_FILENAME);
    let stamp = disk.file_stamp(replay_file.as_str());
    let ghost stamped = disk.log();
    let moved = mover.move_to_trash(bundle.as_str());
    if moved.is_err() {
        assert(disk.log().take(d0.len() as int) =~= d0);
        return delete_result(true, moved);
    }
    match (cache_dir, stamp) {
        (Some(dir), Some((size, modified))) => {
            forget(disk, dir, replay_file.as_str(), size, modified);
            assert(disk.log()[d0.len() as int] == stamped[d0.len() as int]);
            assert(disk.log()[d0.len() + 1int] == stamped[d0.len() + 1int]);
        },
        _ => {},
    }
    assert(disk.log().take(d0.len() as int) =~= d0);
    delete_result(true, moved)
}

} // verus!
