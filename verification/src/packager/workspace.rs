//! Recognizing the hidden workspaces and locks an interrupted export leaves
//! in the destination, and removing those whose process is gone.
use vstd::prelude::*;
use crate::packager::files::{call_ok, creates_none, extends, FsCall, LoggedFiles, PackageFileSystem};
use crate::packager::confine::{alters_only_hidden, is_hidden_name, lemma_in_hidden, visible_spared};
use crate::paths::path_join;
use crate::packager::package::display_name_of;
use crate::packager::publish::{lock_name, partial_name};
use crate::paths::join;
use crate::text::unit_view;
use crate::text::{
    all_digits, chars_of, decimal, digits_value, lemma_decimal_digits, occurs_at, contains_text, find_text, first_occurrence, is_digit, parse_unsigned,
    parse_unsigned_text, split_once_at, starts_with, starts_with_text, sub_chars,
};

verus! {

/// Whether character `c` may stand at position `i` of a display timestamp
/// `YYYY-MM-DD HH.MM.SS`.
pub open spec fn timestamp_char_ok(i: int, c: char) -> bool {
    if i == 4 || i == 7 {
        c == '-'
    } else if i == 10 {
        c == ' '
    } else if i == 13 || i == 16 {
        c == '.'
    } else {
        is_digit(c)
    }
}

/// Whether `v` reads as the timestamp part of a bundle name: a
/// `YYYY-MM-DD HH.MM.SS` stamp, optionally followed by text, where text
/// starting with a space must be a space and a `u32` suffix number.
pub open spec fn is_display_timestamp(v: Seq<char>) -> bool {
    &&& v.len() >= 19
    &&& forall|i: int| 0 <= i < 19 ==> timestamp_char_ok(i, #[trigger] v[i])
    &&& (v.len() == 19 || v[19] != ' ' || parse_unsigned(v.skip(20), u32::MAX as int) is Some)
}

/// A generated name's display timestamp and suffix: split around the first
/// `.partial-`, or else the first `.lock-`.
pub open spec fn generated_split(rest: Seq<char>) -> Option<(Seq<char>, Seq<char>)> {
    match split_once_at(rest, ".partial-"@) {
        Some(p) => Some(p),
        None => split_once_at(rest, ".lock-"@),
    }
}

/// The pid a generated suffix carries: `<pid>` alone, or `<pid>-<nonce>`
/// when the name is a partial workspace, with a `u32` pid and a `u64`
/// nonce.
pub open spec fn suffix_pid(suffix: Seq<char>, partial: bool) -> Option<u32> {
    match first_occurrence(suffix, "-"@) {
        None => match parse_unsigned(suffix, u32::MAX as int) {
            Some(pid) => Some(pid as u32),
            None => None,
        },
        Some(i) => match parse_unsigned(suffix.take(i), u32::MAX as int) {
            None => None,
            Some(pid) => if !contains_text(suffix.skip(i + 1), "-"@) && parse_unsigned(
                suffix.skip(i + 1),
                u64::MAX as int,
            ) is Some && partial {
                Some(pid as u32)
            } else {
                None
            },
        },
    }
}

/// The process id a generated workspace or lock name carries:
/// `.Encore Replay <timestamp>.partial-<pid>-<nonce>` or
/// `.Encore Replay <timestamp>.lock-<pid>`, with a valid display timestamp
/// (see [`is_display_timestamp`]), a `u32` pid and a `u64` nonce (see
/// [`suffix_pid`]). Any other name is not a generated one.
#[verifier::opaque]
pub open spec fn workspace_pid(name: Seq<char>) -> Option<u32> {
    let prefix = ".Encore Replay "@;
    if !starts_with_text(name, prefix) {
        None
    } else {
        let rest = name.skip(prefix.len() as int);
        match generated_split(rest) {
            None => None,
            Some(parts) => if !is_display_timestamp(parts.0) {
                None
            } else {
                suffix_pid(parts.1, contains_text(rest, ".partial-"@))
            },
        }
    }
}

fn timestamp_char_matches(i: usize, c: char) -> (r: bool)
    ensures
        r == timestamp_char_ok(i as int, c),
{
    if i == 4 || i == 7 {
        c == '-'
    } else if i == 10 {
        c == ' '
    } else if i == 13 || i == 16 {
        c == '.'
    } else {
        '0' <= c && c <= '9'
    }
}

/// Whether `value` reads as a display timestamp (see
/// [`is_display_timestamp`]).
pub fn valid_display_timestamp(value: &Vec<char>) -> (r: bool)
    ensures
        r == is_display_timestamp(value@),
{
    let n = value.len();
    if n < 19 {
        return false;
    }
    let mut i: usize = 0;
    while i < 19
        invariant
            n == value@.len(),
            n >= 19,
            i <= 19,
            forall|k: int| 0 <= k < i ==> timestamp_char_ok(k, #[trigger] value@[k]),
        decreases 19 - i,
    {
        if !timestamp_char_matches(i, value[i]) {
            return false;
        }
        i = i + 1;
    }
    if n == 19 || value[19] != ' ' {
        return true;
    }
    let suffix = parse_unsigned_text(value, 20, n, u32::MAX as u64);
    proof {
        assert(value@.subrange(20, n as int) =~= value@.skip(20));
    }
    suffix.is_some()
}

#[verifier::rlimit(30)]
fn split_generated(rest: &Vec<char>) -> (r: Option<(Vec<char>, Vec<char>)>)
    ensures
        match r {
            Some(p) => generated_split(rest@) == Some((p.0@, p.1@)),
            None => generated_split(rest@) is None,
        },
{
    let n = rest.len();
    let found = find_text(rest, ".partial-");
    proof {
        reveal_strlit(".partial-");
        reveal_strlit(".lock-");
    }
    match found {
        Some(i) => {
            let display = sub_chars(rest, 0, i);
            let suffix = sub_chars(rest, i + 9, n);
            proof {
                assert(display@ =~= rest@.take(i as int));
                assert(suffix@ =~= rest@.skip(i + 9));
            }
            Some((display, suffix))
        },
        None => match find_text(rest, ".lock-") {
            Some(i) => {
                let display = sub_chars(rest, 0, i);
                let suffix = sub_chars(rest, i + 6, n);
                proof {
                    assert(display@ =~= rest@.take(i as int));
                    assert(suffix@ =~= rest@.skip(i + 6));
                }
                Some((display, suffix))
            },
            None => None,
        },
    }
}

#[verifier::spinoff_prover]
#[verifier::rlimit(40)]
fn pid_of_suffix(suffix: &Vec<char>, partial: bool) -> (r: Option<u32>)
    ensures
        r == suffix_pid(suffix@, partial),
{
    let n = suffix.len();
    proof {
        assert(suffix@.subrange(0, n as int) =~= suffix@);
    }
    match find_text(suffix, "-") {
        None => match parse_unsigned_text(suffix, 0, n, u32::MAX as u64) {
            Some(pid) => Some(pid as u32),
            None => None,
        },
        Some(i) => {
            proof {
                reveal_strlit("-");
                assert(suffix@.subrange(0, i as int) =~= suffix@.take(i as int));
            }
            let pid = match parse_unsigned_text(suffix, 0, i, u32::MAX as u64) {
                Some(pid) => pid,
                None => return None,
            };
            let nonce = sub_chars(suffix, i + 1, n);
            proof {
                assert(nonce@ =~= suffix@.skip(i + 1));
                assert(nonce@.subrange(0, nonce@.len() as int) =~= nonce@);
            }
            if find_text(&nonce, "-").is_some() {
                return None;
            }
            if parse_unsigned_text(&nonce, 0, nonce.len(), u64::MAX).is_none() {
                return None;
            }
            if !partial {
                return None;
            }
            Some(pid as u32)
        },
    }
}

/// The process id of a generated workspace or lock name (see
/// [`workspace_pid`]).
pub fn interrupted_workspace_pid(name: &str) -> (r: Option<u32>)
    ensures
        r == workspace_pid(name@),
{
    proof {
        reveal(workspace_pid);
    }
    let chars = chars_of(name);
    if !starts_with(&chars, ".Encore Replay ") {
        return None;
    }
    proof {
        reveal_strlit(".Encore Replay ");
    }
    let rest = sub_chars(&chars, 15, chars.len());
    proof {
        assert(rest@ =~= name@.skip(15));
    }
    let (display, suffix) = match split_generated(&rest) {
        Some(parts) => parts,
        None => return None,
    };
    if !valid_display_timestamp(&display) {
        return None;
    }
    let partial = find_text(&rest, ".partial-").is_some();
    pid_of_suffix(&suffix, partial)
}

/// Which processes are alive: asked through [`LoggedProcesses`].
pub trait ProcessTable {
    /// Whether process `pid` is running.
    fn is_running(&self, pid: u32) -> bool;
}

/// A process table and the history of the questions asked of it through
/// this handle: each process id with the answer, in order.
pub struct LoggedProcesses<P> {
    pub inner: P,
    history: Ghost<Seq<(u32, bool)>>,
}

impl<P: ProcessTable> LoggedProcesses<P> {
    /// The questions asked so far through this handle, in order.
    pub closed spec fn queries(&self) -> Seq<(u32, bool)> {
        self.history@
    }

    /// A handle on `inner` with no question asked yet.
    pub fn new(inner: P) -> (r: Self)
        ensures
            r.queries() == Seq::<(u32, bool)>::empty(),
    {
        LoggedProcesses { inner, history: Ghost(Seq::empty()) }
    }

    /// Whether process `pid` is running (see [`ProcessTable::is_running`]).
    pub fn is_running(&mut self, pid: u32) -> (r: bool)
        ensures
            final(self).queries() == old(self).queries().push((pid, r)),
    {
        let r = self.inner.is_running(pid);
        self.history = Ghost(self.history@.push((pid, r)));
        r
    }
}

/// Whether every question about process `pid` in `queries` from `start`
/// on was answered "not running".
pub open spec fn answered_dead(queries: Seq<(u32, bool)>, start: int, pid: u32) -> bool {
    forall|j: int| start <= j < queries.len() && (#[trigger] queries[j]).0 == pid ==> !queries[j].1
}

/// Whether some call of `log` after index `start` removes entry `name` of
/// `destination` as cleanup may (see [`removable_as`]).
pub open spec fn removed_in(log: Seq<FsCall>, start: int, destination: Seq<char>, name: Seq<char>, own_pid: u32) -> bool {
    exists|j: int| start < j < log.len() && #[trigger] removes(log[j], destination, name, removable_as(name, own_pid))
}

/// The names a listing at `log[start]` answered, when it succeeded.
pub open spec fn listed_names(log: Seq<FsCall>, start: int) -> Seq<Seq<char>> {
    match log[start] {
        FsCall::ReadDir { answer: Ok(names), .. } => names,
        _ => Seq::empty(),
    }
}

/// What a cleanup does with one destination entry.
#[derive(Debug, Clone, Copy, PartialEq, Eq, Structural)]
pub enum CleanupAction {
    Keep,
    RemoveWorkspace,
    RemoveLock,
}

/// What cleanup does with entry `name`, `running` telling whether the
/// process its name carries is alive: entries that are not generated
/// workspaces or locks (see [`workspace_pid`]), and those of a live
/// process, are kept; a dead process's workspace is removed as a
/// directory, its lock as a file.
pub open spec fn cleanup_action_of(name: Seq<char>, running: bool) -> CleanupAction {
    match workspace_pid(name) {
        None => CleanupAction::Keep,
        Some(_) => if running {
            CleanupAction::Keep
        } else if contains_text(name, ".partial-"@) {
            CleanupAction::RemoveWorkspace
        } else {
            CleanupAction::RemoveLock
        },
    }
}

/// What cleanup does with entry `name` (see [`cleanup_action_of`]).
pub fn cleanup_action(name: &str, running: bool) -> (r: CleanupAction)
    ensures
        r == cleanup_action_of(name@, running),
{
    match interrupted_workspace_pid(name) {
        None => CleanupAction::Keep,
        Some(_) => {
            if running {
                CleanupAction::Keep
            } else {
                let chars = chars_of(name);
                if find_text(&chars, ".partial-").is_some() {
                    CleanupAction::RemoveWorkspace
                } else {
                    CleanupAction::RemoveLock
                }
            }
        },
    }
}

/// Whether the process that entry `name` carries counts as running, when
/// the process table said `alive` of it: this process (`own_pid`) always
/// does, and an entry that carries none never does.
pub open spec fn running_of(name: Seq<char>, own_pid: u32, alive: bool) -> bool {
    match workspace_pid(name) {
        Some(pid) => pid == own_pid || alive,
        None => false,
    }
}

/// What cleanup may do with entry `name`: what it does with it should the
/// process the name carries be dead (see [`cleanup_action_of`]), as long
/// as that process is not this one (`own_pid`); otherwise keep it.
/// Whether a process other than this one is dead rests on the process
/// table's answer.
#[verifier::opaque]
pub open spec fn removable_as(name: Seq<char>, own_pid: u32) -> CleanupAction {
    if workspace_pid(name) == Some(own_pid) {
        CleanupAction::Keep
    } else {
        cleanup_action_of(name, false)
    }
}

/// Whether `call` removes entry `name` of `destination` as `action` says:
/// a workspace as a directory, a lock as a file.
pub open spec fn removes(call: FsCall, destination: Seq<char>, name: Seq<char>, action: CleanupAction) -> bool {
    match action {
        CleanupAction::RemoveWorkspace => call matches FsCall::RemoveDirAll { path, .. } && path == path_join(destination, name),
        CleanupAction::RemoveLock => call matches FsCall::RemoveFile { path, .. } && path == path_join(destination, name),
        CleanupAction::Keep => false,
    }
}

/// Whether `call` succeeded.
pub open spec fn succeeded(call: FsCall) -> bool {
    match call {
        FsCall::RemoveDirAll { answer, .. } => answer is Ok,
        FsCall::RemoveFile { answer, .. } => answer is Ok,
        _ => false,
    }
}

/// Whether `call` removes a listed entry that may be removed (see
/// [`removable_as`]), in the way it may be.
pub open spec fn removes_removable(call: FsCall, destination: Seq<char>, names: Seq<Seq<char>>, own_pid: u32) -> bool {
    exists|k: int|
        0 <= k < names.len() && removable_as(names[k], own_pid) != CleanupAction::Keep && #[trigger] removes(
            call,
            destination,
            names[k],
            removable_as(names[k], own_pid),
        )
}

/// Whether `log`, from `start` on, is a cleanup of `destination`: a
/// listing of it, then only removals of listed workspaces and locks of
/// other processes, each in the way its kind calls for (see
/// [`removable_as`]); nothing after a listing that failed. Entries that
/// are not generated workspaces or locks, and this process's own, are
/// never touched.
pub open spec fn cleanup_log(log: Seq<FsCall>, start: int, destination: Seq<char>, own_pid: u32) -> bool {
    &&& 0 <= start < log.len()
    &&& log[start] matches FsCall::ReadDir { path, .. } && path == destination
    &&& match log[start] {
        FsCall::ReadDir { answer: Ok(names), .. } => forall|j: int|
            start < j < log.len() ==> #[trigger] removes_removable(log[j], destination, names, own_pid),
        _ => log.len() == start + 1,
    }
}

/// Deals with entry `name` of `destination`, the process table having
/// said `alive` of the process the name carries (this process, `own_pid`,
/// counting as running): as [`cleanup_action_of`] says, it is kept, with
/// no call, or removed with one call, a workspace as a directory and a
/// lock as a file. A removal that fails gives
/// `export_destination_unavailable`.
pub fn clean_entry<F: PackageFileSystem>(
    files: &mut LoggedFiles<F>,
    destination: &str,
    name: &str,
    own_pid: u32,
    alive: bool,
) -> (r: Result<(), String>)
    ensures
        cleanup_action_of(name@, running_of(name@, own_pid, alive)) == CleanupAction::Keep ==> final(files).log()
            == old(files).log() && r is Ok,
        cleanup_action_of(name@, running_of(name@, own_pid, alive)) != CleanupAction::Keep ==> {
            &&& final(files).log().len() == old(files).log().len() + 1
            &&& extends(old(files).log(), final(files).log())
            &&& removes(
                final(files).log().last(),
                destination@,
                name@,
                cleanup_action_of(name@, running_of(name@, own_pid, alive)),
            )
            &&& (r is Ok <==> succeeded(final(files).log().last()))
        },
        r is Err ==> r->Err_0@ == "export_destination_unavailable"@,
{
    let running = match interrupted_workspace_pid(name) {
        Some(pid) => pid == own_pid || alive,
        None => false,
    };
    assert(running == running_of(name@, own_pid, alive));
    let path = join(destination, name);
    let removed = match cleanup_action(name, running) {
        CleanupAction::Keep => return Ok(()),
        CleanupAction::RemoveWorkspace => files.remove_dir_all(path.as_str()),
        CleanupAction::RemoveLock => files.remove_file(path.as_str()),
    };
    match removed {
        Ok(()) => Ok(()),
        Err(_) => Err("export_destination_unavailable".to_string()),
    }
}

/// A name that cleanup may remove is hidden: it starts with `.`.
proof fn lemma_removable_hidden(name: Seq<char>, own_pid: u32)
    requires
        removable_as(name, own_pid) != CleanupAction::Keep,
    ensures
        is_hidden_name(name),
{
    reveal(removable_as);
    reveal(workspace_pid);
    reveal_strlit(".Encore Replay ");
    assert(workspace_pid(name) is Some);
    assert(name.take(15)[0] == name[0]);
}

/// A cleanup alters only hidden entries of the destination: the
/// workspaces and locks it removes all have names that start with `.`.
pub proof fn lemma_cleanup_spared(log: Seq<FsCall>, start: int, destination: Seq<char>, own_pid: u32)
    requires
        cleanup_log(log, start, destination, own_pid),
    ensures
        visible_spared(log, start, destination),
{
    assert forall|j: int| start <= j < log.len() implies #[trigger] alters_only_hidden(log, j, destination) by {
        if j > start {
            let names = log[start]->ReadDir_answer->Ok_0;
            assert(removes_removable(log[j], destination, names, own_pid));
            let k = choose|k: int|
                0 <= k < names.len() && removable_as(names[k], own_pid) != CleanupAction::Keep && #[trigger] removes(
                    log[j],
                    destination,
                    names[k],
                    removable_as(names[k], own_pid),
                );
            lemma_removable_hidden(names[k], own_pid);
            lemma_in_hidden(path_join(destination, names[k]), destination, names[k]);
        }
    }
}

/// Removes the workspaces and locks that interrupted exports of dead
/// processes left in `destination`: each listed entry is dealt with by
/// [`clean_entry`] for what the process table says of the process its
/// name carries, this process (`own_pid`) counting as alive. Only
/// generated workspaces and locks of other processes are ever removed
/// (see [`cleanup_log`]). The cleanup succeeds exactly when the listing and
/// every removal succeeded; the first that fails ends it with
/// `export_destination_unavailable`.
#[verifier::spinoff_prover]
#[verifier::rlimit(60)]
pub fn cleanup_interrupted_workspaces<F: PackageFileSystem, P: ProcessTable>(
    files: &mut LoggedFiles<F>,
    processes: &mut LoggedProcesses<P>,
    destination: &str,
    own_pid: u32,
) -> (r: Result<(), String>)
    ensures
        r is Ok ==> forall|k: int|
            0 <= k < listed_names(final(files).log(), old(files).log().len() as int).len() && removable_as(
                #[trigger] listed_names(final(files).log(), old(files).log().len() as int)[k],
                own_pid,
            ) != CleanupAction::Keep && answered_dead(
                final(processes).queries(),
                old(processes).queries().len() as int,
                workspace_pid(listed_names(final(files).log(), old(files).log().len() as int)[k])->Some_0,
            ) ==> removed_in(
                final(files).log(),
                old(files).log().len() as int,
                destination@,
                listed_names(final(files).log(), old(files).log().len() as int)[k],
                own_pid,
            ),
        r is Ok <==> forall|j: int|
            old(files).log().len() <= j < final(files).log().len() ==> #[trigger] call_ok(final(files).log()[j]),
        r is Err ==> !call_ok(final(files).log().last()) && r->Err_0@ == "export_destination_unavailable"@,
        extends(old(files).log(), final(files).log()),
        cleanup_log(final(files).log(), old(files).log().len() as int, destination@, own_pid),
        creates_none(final(files).log(), old(files).log().len() as int),
{
    let ghost start = files.log().len() as int;
    let entries = match files.read_dir(destination) {
        Ok(e) => e,
        Err(_) => {
            assert(!call_ok(files.log()[files.log().len() - 1]));
            return Err("export_destination_unavailable".to_string());
        },
    };
    let ghost names = entries@.map_values(|e: String| e@);
    let ghost q0 = processes.queries().len() as int;
    let mut i: usize = 0;
    while i < entries.len()
        invariant
            i <= entries@.len(),
            names == entries@.map_values(|e: String| e@),
            extends(old(files).log(), files.log()),
            start == old(files).log().len(),
            start < files.log().len(),
            files.log()[start] == (FsCall::ReadDir { path: destination@, answer: Ok(names) }),
            forall|j: int| start < j < files.log().len() ==> #[trigger] removes_removable(files.log()[j], destination@, names, own_pid),
            forall|j: int| start <= j < files.log().len() ==> #[trigger] call_ok(files.log()[j]),
            creates_none(files.log(), start),
            q0 == old(processes).queries().len(),
            q0 <= processes.queries().len(),
            forall|k: int|
                0 <= k < i && removable_as(#[trigger] names[k], own_pid) != CleanupAction::Keep && answered_dead(
                    processes.queries(),
                    q0,
                    workspace_pid(names[k])->Some_0,
                ) ==> removed_in(files.log(), start, destination@, names[k], own_pid),
        decreases entries@.len() - i,
    {
        let name = entries[i].as_str();
        let ghost qb = processes.queries();
        let running = match interrupted_workspace_pid(name) {
            Some(pid) => pid == own_pid || processes.is_running(pid),
            None => false,
        };
        assert(names[i as int] == name@);
        assert(running_of(name@, own_pid, running) == running);
        assert(cleanup_action_of(name@, running) != CleanupAction::Keep ==> removable_as(name@, own_pid) == cleanup_action_of(
            name@,
            running,
        )) by {
            reveal(removable_as);
        }
        let ghost before = files.log();
        let removed = clean_entry(files, destination, name, own_pid, running);
        proof {
            lemma_cleanup_step(before, files.log(), start, destination@, names, own_pid, i as int, cleanup_action_of(name@, running));
        }
        if removed.is_err() {
            assert(files.log().last() == files.log()[files.log().len() - 1]);
            assert(!call_ok(files.log()[files.log().len() - 1]));
            return Err("export_destination_unavailable".to_string());
        }
        proof {
            assert forall|j: int| start <= j < files.log().len() implies #[trigger] call_ok(files.log()[j]) by {
                if j < before.len() {
                    assert(files.log()[j] == before[j]);
                }
            }
            lemma_cleanup_complete_step(
                before,
                files.log(),
                qb,
                processes.queries(),
                start,
                q0,
                destination@,
                names,
                own_pid,
                i as int,
                running,
            );
        }
        i = i + 1;
    }
    Ok(())
}

/// An entry that cleanup may remove carries the id of a process other than
/// this one, and is removed as it would be should that process be dead.
proof fn lemma_removable_shape(name: Seq<char>, own_pid: u32)
    requires
        removable_as(name, own_pid) != CleanupAction::Keep,
    ensures
        workspace_pid(name) is Some,
        workspace_pid(name)->Some_0 != own_pid,
        running_of(name, own_pid, false) == false,
        cleanup_action_of(name, false) == removable_as(name, own_pid),
{
    reveal(removable_as);
}

/// One more entry dealt with: every entry so far that may be removed, and
/// whose process was only ever answered dead, has been removed.
#[verifier::spinoff_prover]
proof fn lemma_cleanup_complete_step(
    before: Seq<FsCall>,
    after: Seq<FsCall>,
    qb: Seq<(u32, bool)>,
    queries: Seq<(u32, bool)>,
    start: int,
    q0: int,
    destination: Seq<char>,
    names: Seq<Seq<char>>,
    own_pid: u32,
    i: int,
    running: bool,
)
    requires
        0 <= i < names.len(),
        0 <= q0 <= qb.len(),
        extends(before, after),
        forall|k: int|
            0 <= k < i && removable_as(#[trigger] names[k], own_pid) != CleanupAction::Keep && answered_dead(
                qb,
                q0,
                workspace_pid(names[k])->Some_0,
            ) ==> removed_in(before, start, destination, names[k], own_pid),
        match workspace_pid(names[i]) {
            Some(pid) => if pid == own_pid {
                queries == qb && running
            } else {
                queries == qb.push((pid, running))
            },
            None => queries == qb && !running,
        },
        cleanup_action_of(names[i], running_of(names[i], own_pid, running)) != CleanupAction::Keep ==> after.len() == before.len()
            + 1 && removes(after.last(), destination, names[i], cleanup_action_of(names[i], running_of(names[i], own_pid, running))),
        0 <= start < before.len(),
    ensures
        forall|k: int|
            0 <= k < i + 1 && removable_as(#[trigger] names[k], own_pid) != CleanupAction::Keep && answered_dead(
                queries,
                q0,
                workspace_pid(names[k])->Some_0,
            ) ==> removed_in(after, start, destination, names[k], own_pid),
{
    assert forall|k: int|
        0 <= k < i + 1 && removable_as(#[trigger] names[k], own_pid) != CleanupAction::Keep && answered_dead(
            queries,
            q0,
            workspace_pid(names[k])->Some_0,
        ) implies removed_in(after, start, destination, names[k], own_pid) by {
        let p = workspace_pid(names[k])->Some_0;
        if k < i {
            assert(answered_dead(qb, q0, p)) by {
                assert forall|j: int| q0 <= j < qb.len() && (#[trigger] qb[j]).0 == p implies !qb[j].1 by {
                    assert(queries[j] == qb[j]);
                }
            }
            assert(removed_in(before, start, destination, names[k], own_pid));
            let j = choose|j: int| start < j < before.len() && #[trigger] removes(before[j], destination, names[k], removable_as(names[k], own_pid));
            assert(after[j] == before[j]);
            assert(removes(after[j], destination, names[k], removable_as(names[k], own_pid)));
        } else {
            lemma_removable_shape(names[i], own_pid);
            assert(k == i);
            assert(queries[queries.len() - 1] == (p, running));
            assert(!running);
            assert(after[after.len() - 1] == after.last());
        }
    }
}

/// One entry of a cleanup: the log keeps showing only removals of
/// removable entries.
proof fn lemma_cleanup_step(
    before: Seq<FsCall>,
    after: Seq<FsCall>,
    start: int,
    destination: Seq<char>,
    names: Seq<Seq<char>>,
    own_pid: u32,
    i: int,
    action: CleanupAction,
)
    requires
        0 <= i < names.len(),
        0 <= start < before.len(),
        forall|j: int| start < j < before.len() ==> #[trigger] removes_removable(before[j], destination, names, own_pid),
        action == CleanupAction::Keep ==> after == before,
        action != CleanupAction::Keep ==> removable_as(names[i], own_pid) == action && after.len() == before.len() + 1
            && extends(before, after) && removes(after.last(), destination, names[i], action),
    ensures
        extends(before, after),
        after[start] == before[start],
        forall|j: int| start < j < after.len() ==> #[trigger] removes_removable(after[j], destination, names, own_pid),
{
    if action != CleanupAction::Keep {
        assert(after[before.len() as int] == after.last());
        assert(removes_removable(after[before.len() as int], destination, names, own_pid));
        assert forall|j: int| start < j < after.len() implies #[trigger] removes_removable(after[j], destination, names, own_pid) by {
            if j < before.len() {
                assert(after[j] == before[j]);
            }
        }
    }
}

/// Whether every `.` of `x` is followed by a digit.
spec fn dots_then_digits(x: Seq<char>) -> bool {
    forall|i: int| 0 <= i < x.len() && #[trigger] x[i] == '.' ==> i + 1 < x.len() && is_digit(x[i + 1])
}

proof fn lemma_decimal_parses(n: nat, max: int)
    requires
        n <= max,
    ensures
        parse_unsigned(decimal(n), max) == Some(n as int),
        all_digits(decimal(n)),
        decimal(n).len() > 0,
{
    lemma_decimal_digits(n);
    assert(is_digit(decimal(n)[0]));
}

proof fn lemma_first_occurrence_is(s: Seq<char>, pat: Seq<char>, k: int)
    requires
        occurs_at(s, pat, k),
        forall|j: int| 0 <= j < k ==> !occurs_at(s, pat, j),
    ensures
        first_occurrence(s, pat) == Some(k),
        contains_text(s, pat),
{
    assert(contains_text(s, pat));
    let c = choose|i: int| occurs_at(s, pat, i) && forall|j: int| 0 <= j < i ==> !occurs_at(s, pat, j);
    assert(occurs_at(s, pat, c) && forall|j: int| 0 <= j < c ==> !occurs_at(s, pat, j));
    if c < k {
        assert(!occurs_at(s, pat, c));
    }
    if c > k {
        assert(!occurs_at(s, pat, k));
    }
}

proof fn lemma_not_at(s: Seq<char>, pat: Seq<char>, j: int)
    requires
        pat.len() >= 2,
        0 <= j,
        j + 1 < s.len() ==> (s[j] != pat[0] || s[j + 1] != pat[1]),
    ensures
        !occurs_at(s, pat, j),
{
    if occurs_at(s, pat, j) {
        assert(s.subrange(j, j + pat.len())[0] == pat[0]);
        assert(s.subrange(j, j + pat.len())[1] == pat[1]);
    }
}

proof fn lemma_no_occurrence_in_head(x: Seq<char>, tail: Seq<char>, pat: Seq<char>, j: int)
    requires
        dots_then_digits(x),
        pat.len() >= 2,
        pat[0] == '.',
        !is_digit(pat[1]),
        0 <= j < x.len(),
    ensures
        !occurs_at(x + tail, pat, j),
{
    let s = x + tail;
    if s[j] == '.' {
        assert(x[j] == '.');
        assert(s[j + 1] == x[j + 1]);
    }
    lemma_not_at(s, pat, j);
}

proof fn lemma_no_dash(s: Seq<char>)
    requires
        all_digits(s),
    ensures
        first_occurrence(s, "-"@) is None,
        !contains_text(s, "-"@),
{
    reveal_strlit("-");
    assert forall|j: int| !occurs_at(s, "-"@, j) by {
        if occurs_at(s, "-"@, j) {
            assert(s.subrange(j, j + 1)[0] == '-');
            assert(is_digit(s[j]));
        }
    }
}

/// The part of a bundle name that follows `Encore Replay `: the stamp,
/// then a space and the suffix when it is not 0.
spec fn stamped_part(stamp: Seq<char>, suffix: u32) -> Seq<char> {
    if suffix == 0 {
        stamp
    } else {
        stamp + " "@ + decimal(suffix as nat)
    }
}

proof fn lemma_stamped_part(stamp: Seq<char>, suffix: u32)
    requires
        stamp.len() == 19,
        forall|i: int| 0 <= i < 19 ==> timestamp_char_ok(i, #[trigger] stamp[i]),
    ensures
        display_name_of(stamp, suffix) == "Encore Replay "@ + stamped_part(stamp, suffix),
        dots_then_digits(stamped_part(stamp, suffix)),
        is_display_timestamp(stamped_part(stamp, suffix)),
        stamped_part(stamp, suffix).len() >= 19,
{
    reveal_strlit(" ");
    let x = stamped_part(stamp, suffix);
    lemma_decimal_parses(suffix as nat, u32::MAX as int);
    assert(forall|i: int| 0 <= i < 19 ==> x[i] == stamp[i]);
    assert forall|i: int| 0 <= i < x.len() && #[trigger] x[i] == '.' implies i + 1 < x.len() && is_digit(
        x[i + 1],
    ) by {
        if i < 19 {
            assert(timestamp_char_ok(i, stamp[i]));
            assert(i == 13 || i == 16);
            assert(timestamp_char_ok(i + 1, stamp[i + 1]));
        } else if suffix != 0 {
            if i == 19 {
                assert(x[i] == ' ');
            } else {
                assert(x[i] == decimal(suffix as nat)[i - 20]);
                assert(is_digit(decimal(suffix as nat)[i - 20]));
            }
        }
    }
    if suffix != 0 {
        assert(x.skip(20) =~= decimal(suffix as nat));
        assert(x[19] == ' ');
    }
}

proof fn lemma_pid_and_nonce(pid: u32, nonce: u64)
    ensures
        suffix_pid(decimal(pid as nat) + "-"@ + decimal(nonce as nat), true) == Some(pid),
{
    reveal_strlit("-");
    let dp = decimal(pid as nat);
    let dn = decimal(nonce as nat);
    lemma_decimal_parses(pid as nat, u32::MAX as int);
    lemma_decimal_parses(nonce as nat, u64::MAX as int);
    let suffix_text = dp + "-"@ + dn;
    let d = dp.len() as int;
    assert(occurs_at(suffix_text, "-"@, d)) by {
        assert(suffix_text.subrange(d, d + 1) =~= "-"@);
    }
    assert forall|j: int| 0 <= j < d implies !occurs_at(suffix_text, "-"@, j) by {
        if occurs_at(suffix_text, "-"@, j) {
            assert(suffix_text.subrange(j, j + 1)[0] == '-');
            assert(suffix_text[j] == dp[j]);
            assert(is_digit(dp[j]));
        }
    }
    lemma_first_occurrence_is(suffix_text, "-"@, d);
    assert(suffix_text.take(d) =~= dp);
    assert(suffix_text.skip(d + 1) =~= dn);
    lemma_no_dash(dn);
}

proof fn lemma_lone_pid(pid: u32)
    ensures
        suffix_pid(decimal(pid as nat), false) == Some(pid),
{
    lemma_decimal_parses(pid as nat, u32::MAX as int);
    lemma_no_dash(decimal(pid as nat));
}

#[verifier::spinoff_prover]
#[verifier::rlimit(50)]
proof fn lemma_partial_recognised(stamp: Seq<char>, suffix: u32, pid: u32, nonce: u64)
    requires
        stamp.len() == 19,
        forall|i: int| 0 <= i < 19 ==> timestamp_char_ok(i, #[trigger] stamp[i]),
    ensures
        workspace_pid(partial_name(display_name_of(stamp, suffix), pid, nonce)) == Some(pid),
{
    reveal(workspace_pid);
    reveal_strlit(".Encore Replay ");
    reveal_strlit("Encore Replay ");
    reveal_strlit(".");
    reveal_strlit(".partial-");
    reveal_strlit("-");
    lemma_stamped_part(stamp, suffix);
    let x = stamped_part(stamp, suffix);
    let k = x.len() as int;
    let suffix_text = decimal(pid as nat) + "-"@ + decimal(nonce as nat);
    let tail = ".partial-"@ + suffix_text;
    let prefix = ".Encore Replay "@;
    let partial = partial_name(display_name_of(stamp, suffix), pid, nonce);
    assert(partial =~= prefix + (x + tail));
    assert(partial.take(prefix.len() as int) =~= prefix);
    let rest = partial.skip(prefix.len() as int);
    assert(rest =~= x + tail);
    assert(rest.subrange(k, k + 9) =~= ".partial-"@);
    assert forall|j: int| 0 <= j < k implies !occurs_at(rest, ".partial-"@, j) by {
        lemma_no_occurrence_in_head(x, tail, ".partial-"@, j);
    }
    lemma_first_occurrence_is(rest, ".partial-"@, k);
    assert(rest.take(k) =~= x);
    assert(rest.skip(k + 9) =~= suffix_text);
    assert(generated_split(rest) == Some((x, suffix_text)));
    lemma_pid_and_nonce(pid, nonce);
}

#[verifier::spinoff_prover]
#[verifier::rlimit(50)]
proof fn lemma_lock_recognised(stamp: Seq<char>, suffix: u32, pid: u32)
    requires
        stamp.len() == 19,
        forall|i: int| 0 <= i < 19 ==> timestamp_char_ok(i, #[trigger] stamp[i]),
    ensures
        workspace_pid(lock_name(display_name_of(stamp, suffix), pid)) == Some(pid),
{
    reveal(workspace_pid);
    reveal_strlit(".Encore Replay ");
    reveal_strlit("Encore Replay ");
    reveal_strlit(".");
    reveal_strlit(".partial-");
    reveal_strlit(".lock-");
    lemma_stamped_part(stamp, suffix);
    let x = stamped_part(stamp, suffix);
    let k = x.len() as int;
    let dp = decimal(pid as nat);
    lemma_decimal_parses(pid as nat, u32::MAX as int);
    let prefix = ".Encore Replay "@;
    let lock = lock_name(display_name_of(stamp, suffix), pid);
    let tail = ".lock-"@ + dp;
    assert(lock =~= prefix + (x + tail));
    assert(lock.take(prefix.len() as int) =~= prefix);
    let rest = lock.skip(prefix.len() as int);
    assert(rest =~= x + tail);
    assert forall|j: int| 0 <= j implies !occurs_at(rest, ".partial-"@, j) by {
        if j < k {
            lemma_no_occurrence_in_head(x, tail, ".partial-"@, j);
        } else {
            if j + 1 < rest.len() {
                if j == k {
                    assert(rest[j + 1] == 'l');
                } else if j < k + 6 {
                    assert(rest[j] == ".lock-"@[j - k]);
                } else {
                    assert(rest[j] == dp[j - k - 6]);
                    assert(is_digit(dp[j - k - 6]));
                }
            }
            lemma_not_at(rest, ".partial-"@, j);
        }
    }
    assert(!contains_text(rest, ".partial-"@));
    assert(rest.subrange(k, k + 6) =~= ".lock-"@);
    assert forall|j: int| 0 <= j < k implies !occurs_at(rest, ".lock-"@, j) by {
        lemma_no_occurrence_in_head(x, tail, ".lock-"@, j);
    }
    lemma_first_occurrence_is(rest, ".lock-"@, k);
    assert(rest.take(k) =~= x);
    assert(rest.skip(k + 6) =~= dp);
    assert(generated_split(rest) == Some((x, dp)));
    lemma_lone_pid(pid);
}

/// Law: cleanup recognises the names an export of this process creates:
/// the hidden workspace and the lock of a bundle named after a
/// `YYYY-MM-DD HH.MM.SS` stamp, with any suffix, carry the process id that
/// cleanup reads back from them.
pub proof fn lemma_cleanup_recognises_export_names(stamp: Seq<char>, suffix: u32, pid: u32, nonce: u64)
    requires
        stamp.len() == 19,
        forall|i: int| 0 <= i < 19 ==> timestamp_char_ok(i, #[trigger] stamp[i]),
    ensures
        workspace_pid(partial_name(display_name_of(stamp, suffix), pid, nonce)) == Some(pid),
        workspace_pid(lock_name(display_name_of(stamp, suffix), pid)) == Some(pid),
{
    lemma_partial_recognised(stamp, suffix, pid, nonce);
    lemma_lock_recognised(stamp, suffix, pid);
}

/// Law: cleanup never touches a published bundle: a display name does
/// not start with a dot, so it is never taken for a workspace or a lock,
/// whatever process table is consulted.
pub proof fn lemma_published_bundles_survive_cleanup(stamp: Seq<char>, suffix: u32, running: bool)
    ensures
        cleanup_action_of(display_name_of(stamp, suffix), running) == CleanupAction::Keep,
{
    reveal(workspace_pid);
    reveal_strlit("Encore Replay ");
    reveal_strlit(".Encore Replay ");
    let name = display_name_of(stamp, suffix);
    assert(name[0] == 'E');
    if starts_with_text(name, ".Encore Replay "@) {
        assert(name.take(15)[0] == '.');
    }
}

} // verus!
