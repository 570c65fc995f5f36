//! Publishing a bundle under the first free name: the bundle is written
//! into a hidden, locked workspace next to its final name and renamed into
//! place only once complete, so a reader never sees a half-written bundle
//! and a completed one is never overwritten.
use vstd::prelude::*;
use crate::packager::files::{
    all_undone, creates, creates_none, extends, lemma_extends_trans, lemma_undone_attempt, lemma_undone_extends, FsCall,
    FsError, LoggedFiles, PackageFileSystem,
};
use crate::packager::confine::{
    in_hidden_entry, is_hidden_name, lemma_in_hidden, lemma_join_last, lemma_spared_extend, lemma_spared_more,
    lemma_within_spared, stays_within, visible_spared,
};
use crate::paths::{join, path_join};
use crate::text::{all_digits, join_text, lemma_decimal_digits, u64_decimal, decimal, unit_view};

verus! {

/// How many numbered alternatives to a taken name are tried.
pub const MAX_NAME_SUFFIX: u32 = 10_000;

/// A bundle to publish: the name it takes with each suffix, and how its
/// contents are written into a workspace directory.
pub trait BundleJob<F: PackageFileSystem, T> {
    /// The name the bundle takes with `suffix` (0 for none), or the error
    /// that naming it fails with.
    spec fn name_of(&self, suffix: u32) -> Result<Seq<char>, Seq<char>>;

    /// The name the bundle takes with `suffix` (see `name_of`).
    fn name(&self, suffix: u32) -> (r: Result<String, String>)
        ensures
            match r {
                Ok(n) => self.name_of(suffix) == Ok::<Seq<char>, Seq<char>>(n@),
                Err(e) => self.name_of(suffix) == Err::<Seq<char>, Seq<char>>(e@),
            };

    /// Whether `e` is an error that writing the bundle can fail with.
    spec fn is_write_error(&self, e: Seq<char>) -> bool;

    /// Whether writing the bundle into `workspace` came to `r` through the
    /// filesystem calls from log `before` to log `after`, its tools going
    /// from `tools_before` to `tools_after`: what was written where, and
    /// which answer decided the result.
    spec fn wrote(
        &self,
        before: Seq<FsCall>,
        after: Seq<FsCall>,
        tools_before: T,
        tools_after: T,
        workspace: Seq<char>,
        r: Result<(), Seq<char>>,
    ) -> bool;

    /// Whether the tools went from `before` to `after` keeping what the job
    /// leaves alone (such as what they answered before).
    spec fn keeps(&self, before: T, after: T) -> bool;

    /// Keeping is reflexive.
    proof fn lemma_keeps_same(&self, tools: T)
        ensures
            self.keeps(tools, tools),
    ;

    /// Keeping is transitive.
    proof fn lemma_keeps_trans(&self, a: T, b: T, c: T)
        requires
            self.keeps(a, b),
            self.keeps(b, c),
        ensures
            self.keeps(a, c),
    ;

    /// Writes the bundle's contents into directory `workspace` (a path
    /// that does not end with `/`) on `files` with `tools` (such as the
    /// media tools), only adding to the filesystem's log (see `wrote`) and
    /// naming no path outside `workspace`.
    fn write(&self, tools: &mut T, files: &mut LoggedFiles<F>, workspace: &str) -> (r: Result<(), String>)
        requires
            workspace@.len() > 0,
            workspace@.last() != '/',
        ensures
            stays_within(final(files).log(), old(files).log().len() as int, workspace@),
            self.keeps(*old(tools), *final(tools)),
            r is Err ==> self.is_write_error(r->Err_0@),
            extends(old(files).log(), final(files).log()),
            creates_none(final(files).log(), old(files).log().len() as int),
            self.wrote(old(files).log(), final(files).log(), *old(tools), *final(tools), workspace@, unit_view(r));
}

/// Whether the job wrote one of this process's workspaces for `name` in
/// `destination` with result `r`, through the calls of `log` from index
/// `a` to index `b` (with `start <= a <= b`), its tools ending as `tools`.
pub open spec fn wrote_workspace<F: PackageFileSystem, T, J: BundleJob<F, T>>(
    job: &J,
    log: Seq<FsCall>,
    start: int,
    a: int,
    b: int,
    tools_before: T,
    tools: T,
    destination: Seq<char>,
    name: Seq<char>,
    process_id: u32,
    nonce: u64,
    r: Result<(), Seq<char>>,
) -> bool {
    &&& start <= a <= b <= log.len()
    &&& job.wrote(log.take(a), log.take(b), tools_before, tools, path_join(destination, partial_name(name, process_id, nonce)), r)
}

/// The hidden lock a process holds on `name` while publishing it:
/// `.<name>.lock-<pid>`.
pub open spec fn lock_name(name: Seq<char>, process_id: u32) -> Seq<char> {
    "."@ + name + ".lock-"@ + decimal(process_id as nat)
}

/// The hidden workspace a process writes `name` into:
/// `.<name>.partial-<pid>-<nonce>`.
pub open spec fn partial_name(name: Seq<char>, process_id: u32, nonce: u64) -> Seq<char> {
    "."@ + name + ".partial-"@ + decimal(process_id as nat) + "-"@ + decimal(nonce as nat)
}

/// A lock name is hidden.
proof fn lemma_lock_name_hidden(name: Seq<char>, process_id: u32)
    ensures
        is_hidden_name(lock_name(name, process_id)),
{
    reveal_strlit(".");
}

/// A workspace name is hidden and ends with a digit of its number.
proof fn lemma_partial_name_shape(name: Seq<char>, process_id: u32, nonce: u64)
    ensures
        is_hidden_name(partial_name(name, process_id, nonce)),
        partial_name(name, process_id, nonce).last() != '/',
{
    reveal_strlit(".");
    lemma_decimal_digits(nonce as nat);
    let d = decimal(nonce as nat);
    let p = partial_name(name, process_id, nonce);
    assert(p.last() == d.last());
    assert(all_digits(d));
    assert(crate::text::is_digit(d[d.len() - 1]));
}

/// The lock name for `name` (see [`lock_name`]).
pub fn lock_name_for(name: &str, process_id: u32) -> (r: String)
    ensures
        r@ == lock_name(name@, process_id),
{
    let a = join_text(".", name);
    let b = join_text(a.as_str(), ".lock-");
    let pid = u64_decimal(process_id as u64);
    join_text(b.as_str(), pid.as_str())
}

/// The workspace name for `name` (see [`partial_name`]).
pub fn partial_name_for(name: &str, process_id: u32, nonce: u64) -> (r: String)
    ensures
        r@ == partial_name(name@, process_id, nonce),
{
    let a = join_text(".", name);
    let b = join_text(a.as_str(), ".partial-");
    let pid = u64_decimal(process_id as u64);
    let c = join_text(b.as_str(), pid.as_str());
    let d = join_text(c.as_str(), "-");
    let n = u64_decimal(nonce);
    join_text(d.as_str(), n.as_str())
}

/// Removes a workspace that was not published, and its lock.
fn abandon<F: PackageFileSystem>(files: &mut LoggedFiles<F>, workspace: &str, lock: &str)
    ensures
        final(files).log().len() == old(files).log().len() + 2,
        extends(old(files).log(), final(files).log()),
        final(files).log()[old(files).log().len() as int] matches FsCall::RemoveDirAll { path, .. } && path == workspace@,
        final(files).log()[old(files).log().len() + 1int] matches FsCall::RemoveFile { path, .. } && path == lock@,
{
    let _ = files.remove_dir_all(workspace);
    let _ = files.remove_file(lock);
}

/// What a check that a completed bundle exists comes to for the
/// filesystem's answer `x`: the answer, or `export_destination_unavailable`
/// when the filesystem could not tell.
pub open spec fn exists_answer(x: Result<bool, FsError>) -> Result<bool, Seq<char>> {
    match x {
        Ok(b) => Ok(b),
        Err(_) => Err("export_destination_unavailable"@),
    }
}

/// A yes-or-no result, by the view of its error.
pub open spec fn bool_view(r: Result<bool, String>) -> Result<bool, Seq<char>> {
    match r {
        Ok(b) => Ok(b),
        Err(e) => Err(e@),
    }
}

/// What the filesystem's answer `x` to an existence check comes to (see
/// [`exists_answer`]).
pub fn exists_result(x: Result<bool, FsError>) -> (r: Result<bool, String>)
    ensures
        bool_view(r) == exists_answer(x),
{
    match x {
        Ok(b) => Ok(b),
        Err(_) => Err("export_destination_unavailable".to_string()),
    }
}

fn completed_exists<F: PackageFileSystem>(files: &mut LoggedFiles<F>, path: &str) -> (r: Result<bool, String>)
    ensures
        final(files).log().len() == old(files).log().len() + 1,
        extends(old(files).log(), final(files).log()),
        final(files).log().last() matches FsCall::TryExists { path: p, answer: x } && p == path@ && bool_view(r)
            == exists_answer(x),
        r is Err ==> r->Err_0@ == "export_destination_unavailable"@,
{
    let x = files.try_exists(path);
    exists_result(x)
}

/// Whether `call` shows `name` taken in `destination`: a check found a
/// completed bundle under it, or its lock already existed.
pub open spec fn shows_taken(call: FsCall, destination: Seq<char>, name: Seq<char>, process_id: u32) -> bool {
    ||| call == FsCall::TryExists { path: path_join(destination, name), answer: Ok(true) }
    ||| call == FsCall::CreateLock {
        path: path_join(destination, lock_name(name, process_id)),
        answer: Err(FsError::AlreadyExists),
    }
}

/// Whether some call of `log`, from `start` on, shows `name` taken in
/// `destination` (see [`shows_taken`]).
pub open spec fn shown_taken(log: Seq<FsCall>, start: int, destination: Seq<char>, name: Seq<char>, process_id: u32) -> bool {
    exists|i: int| start <= i < log.len() && #[trigger] shows_taken(log[i], destination, name, process_id)
}

/// Whether `log`, from `start` on, shows each name the job takes below
/// `suffix` taken (see [`shown_taken`]).
pub open spec fn taken_below<F: PackageFileSystem, T, J: BundleJob<F, T>>(
    job: &J,
    log: Seq<FsCall>,
    start: int,
    destination: Seq<char>,
    process_id: u32,
    suffix: u32,
) -> bool {
    forall|k: u32|
        k < suffix ==> (#[trigger] job.name_of(k)) is Ok && shown_taken(log, start, destination, job.name_of(k)->Ok_0, process_id)
}

/// Whether `log` ends with the publication of `name` in `destination`: a
/// check that found no completed bundle under the name, the rename of one
/// of this process's workspaces for it onto the name, a sync of the
/// destination, and the release of the name's lock.
pub open spec fn ends_with_publication(log: Seq<FsCall>, destination: Seq<char>, name: Seq<char>, process_id: u32) -> bool {
    let n = log.len() as int;
    let completed = path_join(destination, name);
    &&& n >= 4
    &&& log[n - 4] == FsCall::TryExists { path: completed, answer: Ok(false) }
    &&& log[n - 3] matches FsCall::Rename { from, to, answer } && to == completed && answer is Ok && exists|nonce: u64|
        from == path_join(destination, #[trigger] partial_name(name, process_id, nonce))
    &&& log[n - 2] matches FsCall::SyncDir { path, answer } && path == destination && answer is Ok
    &&& log[n - 1] matches FsCall::RemoveFile { path, .. } && path == path_join(destination, lock_name(name, process_id))
}

/// Publishes `job` into the existing `destination` under its first name (suffix 0, 1,
/// … up to [`MAX_NAME_SUFFIX`]) that no completed bundle holds and no
/// other process has locked. The bundle is written into a hidden
/// workspace (see [`partial_name`]) under a lock (see [`lock_name`]), each
/// workspace numbered from `nonce`, which is advanced once per attempt;
/// the workspace is renamed into place once written, and the workspace and
/// lock are removed on every other way out. On success the name and the
/// completed bundle's path are returned.
pub fn publish<F: PackageFileSystem, T, J: BundleJob<F, T>>(
    files: &mut LoggedFiles<F>,
    destination: &str,
    process_id: u32,
    nonce: &mut u64,
    job: &J,
    tools: &mut T,
) -> (r: Result<(String, String), String>)
    ensures
        extends(old(files).log(), final(files).log()),
        all_undone(final(files).log(), old(files).log().len() as int),
        visible_spared(final(files).log(), old(files).log().len() as int, destination@),
        job.keeps(*old(tools), *final(tools)),
        match r {
            Ok((name, path)) => {
                &&& exists|suffix: u32|
                    suffix <= MAX_NAME_SUFFIX && #[trigger] job.name_of(suffix) == Ok::<Seq<char>, Seq<char>>(name@)
                        && taken_below::<F, T, J>(job, final(files).log(), old(files).log().len() as int, destination@, process_id, suffix)
                &&& path@ == path_join(destination@, name@)
                &&& ends_with_publication(final(files).log(), destination@, name@, process_id)
                &&& exists|a: int, t0: T, nonce: u64|
                    #[trigger] wrote_workspace::<F, T, J>(
                        job,
                        final(files).log(),
                        old(files).log().len() as int,
                        a,
                        final(files).log().len() - 4,
                        t0,
                        *final(tools),
                        destination@,
                        name@,
                        process_id,
                        nonce,
                        Ok(()),
                    ) && (final(files).log()[final(files).log().len() - 3] matches FsCall::Rename { from, .. } && from
                        == path_join(destination@, partial_name(name@, process_id, nonce)))
            },
            Err(e) => e@ == "export_destination_unavailable"@ || (exists|suffix: u32|
                #[trigger] job.name_of(suffix) == Err::<Seq<char>, Seq<char>>(e@)) || exists|
                a: int,
                b: int,
                t0: T,
                name: Seq<char>,
                nonce: u64,
            |
                #[trigger] wrote_workspace::<F, T, J>(
                    job,
                    final(files).log(),
                    old(files).log().len() as int,
                    a,
                    b,
                    t0,
                    *final(tools),
                    destination@,
                    name,
                    process_id,
                    nonce,
                    Err(e@),
                ),
        },
{
    let ghost start = files.log();
    let ghost mut ev: Seq<int> = Seq::empty();
    proof {
        job.lemma_keeps_same(*tools);
    }
    let mut suffix: u32 = 0;
    loop
        invariant
            suffix <= MAX_NAME_SUFFIX + 1,
            start == old(files).log(),
            extends(start, files.log()),
            all_undone(files.log(), start.len() as int),
            visible_spared(files.log(), start.len() as int, destination@),
            job.keeps(*old(tools), *tools),
            ev.len() == suffix,
            forall|k: int|
                0 <= k < suffix ==> start.len() <= #[trigger] ev[k] < files.log().len() && job.name_of(k as u32) is Ok
                    && shows_taken(files.log()[ev[k]], destination@, job.name_of(k as u32)->Ok_0, process_id),
        ensures
            suffix > MAX_NAME_SUFFIX,
            extends(start, files.log()),
            all_undone(files.log(), start.len() as int),
            visible_spared(files.log(), start.len() as int, destination@),
            job.keeps(*old(tools), *tools),
        decreases MAX_NAME_SUFFIX + 1 - suffix,
    {
        if suffix > MAX_NAME_SUFFIX {
            break;
        }
        let ghost top = files.log();
        let name = match job.name(suffix) {
            Ok(n) => n,
            Err(e) => return Err(e),
        };
        let completed = join(destination, name.as_str());
        let first_answer = completed_exists(files, completed.as_str());
        proof {
            lemma_spared_more(top, files.log(), start.len() as int, destination@);
        }
        let first_check = match first_answer {
            Ok(b) => b,
            Err(e) => {
                proof {
                    lemma_extends_trans(start, top, files.log());
                    lemma_undone_extends(top, files.log(), start.len() as int);
                }
                return Err(e);
            },
        };
        if first_check {
            proof {
                let i = top.len() as int;
                assert(files.log()[i] == FsCall::TryExists { path: completed@, answer: Ok(true) });
                lemma_undone_extends(top, files.log(), start.len() as int);
                lemma_taken_step::<F, T, J>(job, start, top, files.log(), ev, i, destination@, process_id, suffix);
                ev = ev.push(i);
            }
            suffix = suffix + 1;
            continue;
        }
        let lock = join(destination, lock_name_for(name.as_str(), process_id).as_str());
        let ghost before_lock = files.log();
        proof {
            lemma_lock_name_hidden(name@, process_id);
            lemma_in_hidden(lock@, destination@, lock_name(name@, process_id));
        }
        let locked = files.create_lock(lock.as_str());
        proof {
            lemma_spared_more(before_lock, files.log(), start.len() as int, destination@);
        }
        match locked {
            Ok(()) => {},
            Err(FsError::AlreadyExists) => {
                proof {
                    let i = before_lock.len() as int;
                    assert(files.log()[i] == FsCall::CreateLock {
                        path: path_join(destination@, lock_name(name@, process_id)),
                        answer: Err(FsError::AlreadyExists),
                    });
                    lemma_undone_extends(top, files.log(), start.len() as int);
                    lemma_taken_step::<F, T, J>(job, start, top, files.log(), ev, i, destination@, process_id, suffix);
                    ev = ev.push(i);
                }
                suffix = suffix + 1;
                continue;
            },
            Err(FsError::Other) => {
                proof {
                    lemma_undone_extends(top, files.log(), start.len() as int);
                }
                return Err("export_destination_unavailable".to_string());
            },
        }
        let ghost lock_at = before_lock.len() as int;
        let attempt = *nonce;
        *nonce = nonce.wrapping_add(1);
        let workspace = join(destination, partial_name_for(name.as_str(), process_id, attempt).as_str());
        proof {
            lemma_partial_name_shape(name@, process_id, attempt);
            lemma_join_last(destination@, partial_name(name@, process_id, attempt));
            lemma_in_hidden(workspace@, destination@, partial_name(name@, process_id, attempt));
        }
        let ghost before_dir = files.log();
        match files.create_dir(workspace.as_str()) {
            Ok(()) => {
                proof {
                    lemma_spared_more(before_dir, files.log(), start.len() as int, destination@);
                }
            },
            Err(_) => {
                let _ = files.remove_file(lock.as_str());
                proof {
                    lemma_spared_more(before_dir, files.log(), start.len() as int, destination@);
                    lemma_extends_trans(start, top, files.log());
                    lemma_undone_attempt(top, files.log(), start.len() as int, lock_at, files.log().len() - 1, -1, -1);
                }
                return Err("export_destination_unavailable".to_string());
            },
        }
        let ghost before_second = files.log();
        let second = completed_exists(files, completed.as_str());
        proof {
            lemma_spared_more(before_second, files.log(), start.len() as int, destination@);
        }
        match second {
            Ok(true) => {
                let ghost i = before_second.len() as int;
                let ghost before_abandon = files.log();
                abandon(files, workspace.as_str(), lock.as_str());
                proof {
                    lemma_spared_more(before_abandon, files.log(), start.len() as int, destination@);
                    lemma_undone_attempt(top, files.log(), start.len() as int, lock_at, files.log().len() - 1, lock_at + 1, files.log().len() - 2);
                }
                proof {
                    lemma_taken_step::<F, T, J>(job, start, top, files.log(), ev, i, destination@, process_id, suffix);
                    ev = ev.push(i);
                }
                suffix = suffix + 1;
                continue;
            },
            Ok(false) => {},
            Err(e) => {
                let ghost before_abandon = files.log();
                abandon(files, workspace.as_str(), lock.as_str());
                proof {
                    lemma_spared_more(before_abandon, files.log(), start.len() as int, destination@);
                    lemma_undone_attempt(top, files.log(), start.len() as int, lock_at, files.log().len() - 1, lock_at + 1, files.log().len() - 2);
                }
                return Err(e);
            },
        }
        let ghost before_write = files.log();
        let ghost tools_before = *tools;
        let written = job.write(tools, files, workspace.as_str());
        let ghost after_write = files.log();
        proof {
            job.lemma_keeps_trans(*old(tools), tools_before, *tools);
        }
        proof {
            lemma_within_spared(files.log(), before_write.len() as int, destination@, partial_name(name@, process_id, attempt));
            lemma_spared_extend(before_write, files.log(), start.len() as int, destination@);
        }
        match written {
            Ok(()) => {},
            Err(e) => {
                let ghost before_abandon = files.log();
                abandon(files, workspace.as_str(), lock.as_str());
                proof {
                    lemma_spared_more(before_abandon, files.log(), start.len() as int, destination@);
                    assert(files.log().take(before_write.len() as int) =~= before_write);
                    assert(files.log().take(after_write.len() as int) =~= after_write);
                    assert(wrote_workspace::<F, T, J>(
                        job,
                        files.log(),
                        start.len() as int,
                        before_write.len() as int,
                        after_write.len() as int,
                        tools_before,
                        *tools,
                        destination@,
                        name@,
                        process_id,
                        attempt,
                        Err(e@),
                    ));
                }
                proof {
                    lemma_undone_attempt(top, files.log(), start.len() as int, lock_at, files.log().len() - 1, lock_at + 1, files.log().len() - 2);
                }
                return Err(e);
            },
        }
        let ghost before_third = files.log();
        let third = completed_exists(files, completed.as_str());
        proof {
            lemma_spared_more(before_third, files.log(), start.len() as int, destination@);
        }
        match third {
            Ok(true) => {
                let ghost i = before_third.len() as int;
                let ghost before_abandon = files.log();
                abandon(files, workspace.as_str(), lock.as_str());
                proof {
                    lemma_spared_more(before_abandon, files.log(), start.len() as int, destination@);
                    lemma_undone_attempt(top, files.log(), start.len() as int, lock_at, files.log().len() - 1, lock_at + 1, files.log().len() - 2);
                }
                proof {
                    lemma_taken_step::<F, T, J>(job, start, top, files.log(), ev, i, destination@, process_id, suffix);
                    ev = ev.push(i);
                }
                suffix = suffix + 1;
                continue;
            },
            Ok(false) => {},
            Err(e) => {
                let ghost before_abandon = files.log();
                abandon(files, workspace.as_str(), lock.as_str());
                proof {
                    lemma_spared_more(before_abandon, files.log(), start.len() as int, destination@);
                    lemma_undone_attempt(top, files.log(), start.len() as int, lock_at, files.log().len() - 1, lock_at + 1, files.log().len() - 2);
                }
                return Err(e);
            },
        }
        let ghost checked = files.log();
        let renamed = files.rename(workspace.as_str(), completed.as_str());
        let ghost after_rename = files.log();
        proof {
            lemma_spared_more(checked, files.log(), start.len() as int, destination@);
        }
        match renamed {
            Ok(()) => {
                assert(workspace@ == path_join(destination@, partial_name(name@, process_id, attempt)));
            },
            Err(_) => {
                let ghost before_recheck = files.log();
                let recheck = files.try_exists(completed.as_str());
                proof {
                    lemma_spared_more(before_recheck, files.log(), start.len() as int, destination@);
                }
                let taken = match recheck {
                    Ok(b) => b,
                    Err(_) => false,
                };
                let ghost i = before_recheck.len() as int;
                let ghost before_abandon = files.log();
                abandon(files, workspace.as_str(), lock.as_str());
                proof {
                    lemma_spared_more(before_abandon, files.log(), start.len() as int, destination@);
                    lemma_undone_attempt(top, files.log(), start.len() as int, lock_at, files.log().len() - 1, lock_at + 1, files.log().len() - 2);
                }
                if taken {
                    proof {
                        lemma_taken_step::<F, T, J>(job, start, top, files.log(), ev, i, destination@, process_id, suffix);
                        ev = ev.push(i);
                    }
                    suffix = suffix + 1;
                    continue;
                }
                return Err("export_destination_unavailable".to_string());
            },
        }
        let synced = files.sync_dir(destination);
        let _ = files.remove_file(lock.as_str());
        proof {
            lemma_spared_more(after_rename, files.log(), start.len() as int, destination@);
            lemma_undone_attempt(top, files.log(), start.len() as int, lock_at, files.log().len() - 1, lock_at + 1, files.log().len() - 3);
        }
        match synced {
            Ok(()) => {},
            Err(_) => return Err("export_destination_unavailable".to_string()),
        }
        proof {
            let n = files.log().len() as int;
            assert(n == checked.len() + 3);
            assert(files.log()[n - 4] == checked.last());
            assert(files.log()[n - 3] == after_rename.last());
            assert(ends_with_publication(files.log(), destination@, name@, process_id));
            assert(after_write.len() == n - 4);
            assert(files.log().take(before_write.len() as int) =~= before_write);
            assert(files.log().take(after_write.len() as int) =~= after_write);
            assert(wrote_workspace::<F, T, J>(
                job,
                files.log(),
                start.len() as int,
                before_write.len() as int,
                n - 4,
                tools_before,
                *tools,
                destination@,
                name@,
                process_id,
                attempt,
                Ok(()),
            ));
            assert forall|k: u32| k < suffix implies (#[trigger] job.name_of(k)) is Ok && shown_taken(
                files.log(),
                start.len() as int,
                destination@,
                job.name_of(k)->Ok_0,
                process_id,
            ) by {
                let i = ev[k as int];
                assert(shows_taken(files.log()[i], destination@, job.name_of(k)->Ok_0, process_id));
            }
            assert(taken_below::<F, T, J>(job, files.log(), start.len() as int, destination@, process_id, suffix));
        }
        return Ok((name, completed));
    }
    Err("export_destination_unavailable".to_string())
}


/// One more name shown taken: the evidence gathered for the names below
/// `suffix` survives the calls since, and the call at `i` shows the name
/// with `suffix` taken.
proof fn lemma_taken_step<F: PackageFileSystem, T, J: BundleJob<F, T>>(
    job: &J,
    start: Seq<FsCall>,
    top: Seq<FsCall>,
    now: Seq<FsCall>,
    ev: Seq<int>,
    i: int,
    destination: Seq<char>,
    process_id: u32,
    suffix: u32,
)
    requires
        extends(start, top),
        extends(top, now),
        ev.len() == suffix,
        forall|k: int|
            0 <= k < suffix ==> start.len() <= #[trigger] ev[k] < top.len() && job.name_of(k as u32) is Ok
                && shows_taken(top[ev[k]], destination, job.name_of(k as u32)->Ok_0, process_id),
        job.name_of(suffix) is Ok,
        top.len() <= i < now.len(),
        shows_taken(now[i], destination, job.name_of(suffix)->Ok_0, process_id),
    ensures
        extends(start, now),
        forall|k: int|
            0 <= k < suffix + 1 ==> start.len() <= #[trigger] ev.push(i)[k] < now.len() && job.name_of(k as u32) is Ok
                && shows_taken(now[ev.push(i)[k]], destination, job.name_of(k as u32)->Ok_0, process_id),
{
    assert forall|k: int| 0 <= k < suffix + 1 implies start.len() <= #[trigger] ev.push(i)[k] < now.len() && job.name_of(k as u32) is Ok
        && shows_taken(now[ev.push(i)[k]], destination, job.name_of(k as u32)->Ok_0, process_id) by {
        if k < suffix {
            assert(ev.push(i)[k] == ev[k]);
            assert(now[ev[k]] == top[ev[k]]);
        } else {
            assert(k == suffix);
        }
    }
}

} // verus!
