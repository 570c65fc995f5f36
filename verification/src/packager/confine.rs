//! Where the packager's filesystem calls may reach: everything it writes,
//! removes or renames away lies in a hidden entry of the destination (a
//! workspace or a lock, whose names start with `.`), so a visible entry,
//! such as a completed bundle, is never altered; the one exception is the
//! rename that publishes a bundle, onto a name just found free.
use vstd::prelude::*;
use crate::packager::files::{extends, FsCall};
use crate::paths::path_join;

verus! {

/// Whether `path` is directory `dir` itself or lies inside it.
pub open spec fn within(path: Seq<char>, dir: Seq<char>) -> bool {
    path == dir || (dir.len() < path.len() && path.take(dir.len() + 1int) == dir.push('/'))
}

/// Whether a name is hidden: it starts with `.`.
pub open spec fn is_hidden_name(name: Seq<char>) -> bool {
    name.len() > 0 && name[0] == '.'
}

/// Whether `path` is a hidden entry of `destination` or lies inside one.
pub open spec fn in_hidden_entry(path: Seq<char>, destination: Seq<char>) -> bool {
    exists|h: Seq<char>| is_hidden_name(h) && #[trigger] within(path, path_join(destination, h))
}

/// Whether every path that `call` names lies within `dir`.
pub open spec fn call_within(call: FsCall, dir: Seq<char>) -> bool {
    match call {
        FsCall::CreateDirAll { path, .. } => within(path, dir),
        FsCall::CreateDir { path, .. } => within(path, dir),
        FsCall::CreateLock { path, .. } => within(path, dir),
        FsCall::TryExists { path, .. } => within(path, dir),
        FsCall::ReadDir { path, .. } => within(path, dir),
        FsCall::WriteSynced { path, .. } => within(path, dir),
        FsCall::FileLen { path, .. } => within(path, dir),
        FsCall::SyncFile { path, .. } => within(path, dir),
        FsCall::SyncDir { path, .. } => within(path, dir),
        FsCall::Rename { from, to, .. } => within(from, dir) && within(to, dir),
        FsCall::RemoveDirAll { path, .. } => within(path, dir),
        FsCall::RemoveFile { path, .. } => within(path, dir),
    }
}

/// Whether every call of `log` from `start` on names only paths within
/// `dir`.
pub open spec fn stays_within(log: Seq<FsCall>, start: int, dir: Seq<char>) -> bool {
    forall|j: int| start <= j < log.len() ==> #[trigger] call_within(log[j], dir)
}

/// Whether the call at `j` of `log` alters only hidden entries of
/// `destination`: what it writes, removes or renames away lies in a hidden
/// entry, and so does where it renames to, unless the call just before it
/// found that target free. Creating, reading, checking and syncing alter
/// nothing that exists.
pub open spec fn alters_only_hidden(log: Seq<FsCall>, j: int, destination: Seq<char>) -> bool {
    match log[j] {
        FsCall::WriteSynced { path, .. } => in_hidden_entry(path, destination),
        FsCall::RemoveFile { path, .. } => in_hidden_entry(path, destination),
        FsCall::RemoveDirAll { path, .. } => in_hidden_entry(path, destination),
        FsCall::Rename { from, to, .. } => in_hidden_entry(from, destination) && (in_hidden_entry(to, destination) || (
        j > 0 && log[j - 1] == FsCall::TryExists { path: to, answer: Ok(false) })),
        _ => true,
    }
}

/// Whether the calls of `log` from `start` on alter only hidden entries of
/// `destination` (see [`alters_only_hidden`]).
pub open spec fn visible_spared(log: Seq<FsCall>, start: int, destination: Seq<char>) -> bool {
    forall|j: int| start <= j < log.len() ==> #[trigger] alters_only_hidden(log, j, destination)
}

/// A path inside a hidden entry of a destination is neither inside nor
/// above a visible entry of it: writing, removing or renaming it leaves
/// every entry whose name does not start with `.` as it was.
pub proof fn lemma_hidden_apart_from_visible(destination: Seq<char>, path: Seq<char>, name: Seq<char>)
    requires
        in_hidden_entry(path, destination),
        name.len() > 0,
        name[0] != '.',
        name[0] != '/',
    ensures
        !within(path, path_join(destination, name)),
        !within(path_join(destination, name), path),
{
    let h = choose|h: Seq<char>| is_hidden_name(h) && #[trigger] within(path, path_join(destination, h));
    let hp = path_join(destination, h);
    let vp = path_join(destination, name);
    let k: int = if destination.len() == 0 {
        0
    } else if destination.last() == '/' {
        destination.len() as int
    } else {
        destination.len() + 1int
    };
    assert(hp.len() > k && hp[k] == '.');
    assert(vp.len() > k && vp[k] == name[0]);
    assert(path.len() > k && path[k] == '.') by {
        if path != hp {
            assert(path.take(hp.len() + 1int)[k] == path[k]);
        }
    }
    if within(path, vp) {
        if path != vp {
            assert(path.take(vp.len() + 1int)[k] == path[k]);
        }
    }
    if within(vp, path) {
        if vp != path {
            assert(vp.take(path.len() + 1int)[k] == vp[k]);
        }
    }
}

/// Whether `path` is inside or above `entry`, or `entry` itself.
pub open spec fn meets(path: Seq<char>, entry: Seq<char>) -> bool {
    within(path, entry) || within(entry, path)
}

/// Whether `call` writes, removes or renames away a path that meets entry
/// `name` of `destination` (see [`meets`]), or renames onto one.
pub open spec fn touches_entry(call: FsCall, destination: Seq<char>, name: Seq<char>) -> bool {
    let entry = path_join(destination, name);
    match call {
        FsCall::WriteSynced { path, .. } => meets(path, entry),
        FsCall::RemoveFile { path, .. } => meets(path, entry),
        FsCall::RemoveDirAll { path, .. } => meets(path, entry),
        FsCall::Rename { from, to, .. } => meets(from, entry) || meets(to, entry),
        _ => false,
    }
}

/// Calls that alter only hidden entries of a destination touch a visible
/// entry (one whose name does not start with `.`) only by renaming onto a
/// path that the call just before found free: an existing bundle is never
/// written, removed, renamed away or replaced.
pub proof fn lemma_visible_entry_untouched(
    log: Seq<FsCall>,
    start: int,
    destination: Seq<char>,
    name: Seq<char>,
    j: int,
)
    requires
        visible_spared(log, start, destination),
        start <= j < log.len(),
        name.len() > 0,
        name[0] != '.',
        name[0] != '/',
        touches_entry(log[j], destination, name),
    ensures
        log[j] is Rename,
        j > 0,
        log[j - 1] == (FsCall::TryExists { path: log[j]->Rename_to, answer: Ok(false) }),
{
    assert(alters_only_hidden(log, j, destination));
    match log[j] {
        FsCall::WriteSynced { path, .. } => lemma_hidden_apart_from_visible(destination, path, name),
        FsCall::RemoveFile { path, .. } => lemma_hidden_apart_from_visible(destination, path, name),
        FsCall::RemoveDirAll { path, .. } => lemma_hidden_apart_from_visible(destination, path, name),
        FsCall::Rename { from, to, .. } => {
            lemma_hidden_apart_from_visible(destination, from, name);
            if in_hidden_entry(to, destination) {
                lemma_hidden_apart_from_visible(destination, to, name);
            }
        },
        _ => {},
    }
}

/// A name joined onto a directory that does not end with `/` lies within
/// it.
pub proof fn lemma_join_within(dir: Seq<char>, name: Seq<char>)
    requires
        dir.len() > 0,
        dir.last() != '/',
        name.len() > 0,
        name[0] != '/',
    ensures
        within(path_join(dir, name), dir),
{
    assert(path_join(dir, name).take(dir.len() + 1int) =~= dir.push('/'));
}

/// A name joined onto a destination ends as the name does.
pub proof fn lemma_join_last(destination: Seq<char>, name: Seq<char>)
    requires
        name.len() > 0,
        name[0] != '/',
    ensures
        path_join(destination, name).len() > 0,
        path_join(destination, name).last() == name.last(),
{
}

/// What lies within a hidden entry of a destination lies in a hidden
/// entry of it.
pub proof fn lemma_in_hidden(path: Seq<char>, destination: Seq<char>, h: Seq<char>)
    requires
        is_hidden_name(h),
        within(path, path_join(destination, h)),
    ensures
        in_hidden_entry(path, destination),
{
}

/// Calls that stay within a hidden entry of a destination alter only
/// hidden entries of it.
pub proof fn lemma_within_spared(log: Seq<FsCall>, start: int, destination: Seq<char>, h: Seq<char>)
    requires
        is_hidden_name(h),
        stays_within(log, start, path_join(destination, h)),
    ensures
        visible_spared(log, start, destination),
{
    let ws = path_join(destination, h);
    assert forall|j: int| start <= j < log.len() implies #[trigger] alters_only_hidden(log, j, destination) by {
        assert(call_within(log[j], ws));
        match log[j] {
            FsCall::WriteSynced { path, .. } => lemma_in_hidden(path, destination, h),
            FsCall::RemoveFile { path, .. } => lemma_in_hidden(path, destination, h),
            FsCall::RemoveDirAll { path, .. } => lemma_in_hidden(path, destination, h),
            FsCall::Rename { from, to, .. } => {
                lemma_in_hidden(from, destination, h);
                lemma_in_hidden(to, destination, h);
            },
            _ => {},
        }
    }
}

/// Two stretches of calls that each alter only hidden entries make one.
pub proof fn lemma_spared_extend(before: Seq<FsCall>, after: Seq<FsCall>, start: int, destination: Seq<char>)
    requires
        0 <= start <= before.len(),
        visible_spared(before, start, destination),
        extends(before, after),
        visible_spared(after, before.len() as int, destination),
    ensures
        visible_spared(after, start, destination),
{
    assert forall|j: int| start <= j < after.len() implies #[trigger] alters_only_hidden(after, j, destination) by {
        if j < before.len() {
            assert(after[j] == before[j]);
            assert(alters_only_hidden(before, j, destination));
            if j > 0 {
                assert(after[j - 1] == before[j - 1]);
            }
        }
    }
}

/// One or two more calls that each alter only hidden entries keep the
/// calls from `start` on altering only hidden ones.
pub proof fn lemma_spared_more(before: Seq<FsCall>, after: Seq<FsCall>, start: int, destination: Seq<char>)
    requires
        0 <= start <= before.len(),
        visible_spared(before, start, destination),
        extends(before, after),
        before.len() + 1 <= after.len() <= before.len() + 2,
        alters_only_hidden(after, before.len() as int, destination),
        after.len() == before.len() + 2 ==> alters_only_hidden(after, before.len() + 1int, destination),
    ensures
        visible_spared(after, start, destination),
{
    assert forall|j: int| before.len() <= j < after.len() implies #[trigger] alters_only_hidden(after, j, destination) by {
        if j != before.len() {
            assert(j == before.len() + 1);
        }
    }
    lemma_spared_extend(before, after, start, destination);
}

/// One more call within a directory keeps the calls from `start` on
/// within it.
pub proof fn lemma_within_more(before: Seq<FsCall>, after: Seq<FsCall>, start: int, dir: Seq<char>)
    requires
        0 <= start <= before.len(),
        stays_within(before, start, dir),
        extends(before, after),
        after.len() == before.len() + 1,
        call_within(after.last(), dir),
    ensures
        stays_within(after, start, dir),
{
    lemma_within_extend(before, after, start, dir);
}

/// Two stretches of calls that each stay within a directory make one.
pub proof fn lemma_within_extend(before: Seq<FsCall>, after: Seq<FsCall>, start: int, dir: Seq<char>)
    requires
        0 <= start <= before.len(),
        stays_within(before, start, dir),
        extends(before, after),
        stays_within(after, before.len() as int, dir),
    ensures
        stays_within(after, start, dir),
{
    assert forall|j: int| start <= j < after.len() implies #[trigger] call_within(after[j], dir) by {
        if j < before.len() {
            assert(after[j] == before[j]);
        }
    }
}

} // verus!
