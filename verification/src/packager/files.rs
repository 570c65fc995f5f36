//! The filesystem as the packager and the editor's exports use it.
use vstd::prelude::*;

verus! {

/// Why a filesystem operation failed.
#[derive(Debug, Clone, Copy, PartialEq, Eq, Structural)]
pub enum FsError {
    /// The path to create already exists.
    AlreadyExists,
    /// Any other failure.
    Other,
}

/// One filesystem operation, with the paths and bytes it was handed and
/// what it answered.
pub enum FsCall {
    CreateDirAll { path: Seq<char>, answer: Result<(), FsError> },
    CreateDir { path: Seq<char>, answer: Result<(), FsError> },
    CreateLock { path: Seq<char>, answer: Result<(), FsError> },
    TryExists { path: Seq<char>, answer: Result<bool, FsError> },
    ReadDir { path: Seq<char>, answer: Result<Seq<Seq<char>>, FsError> },
    WriteSynced { path: Seq<char>, bytes: Seq<u8>, answer: Result<(), FsError> },
    FileLen { path: Seq<char>, answer: Result<u64, FsError> },
    SyncFile { path: Seq<char>, answer: Result<(), FsError> },
    SyncDir { path: Seq<char>, answer: Result<(), FsError> },
    Rename { from: Seq<char>, to: Seq<char>, answer: Result<(), FsError> },
    RemoveDirAll { path: Seq<char>, answer: Result<(), FsError> },
    RemoveFile { path: Seq<char>, answer: Result<(), FsError> },
}

/// Whether log `later` continues log `earlier`: it holds every call of
/// `earlier`, in place, and possibly more after them.
pub open spec fn extends(earlier: Seq<FsCall>, later: Seq<FsCall>) -> bool {
    &&& earlier.len() <= later.len()
    &&& forall|i: int| 0 <= i < earlier.len() ==> #[trigger] later[i] == earlier[i]
}

/// A log continuing one that continues `a` continues `a`.
pub proof fn lemma_extends_trans(a: Seq<FsCall>, b: Seq<FsCall>, c: Seq<FsCall>)
    requires
        extends(a, b),
        extends(b, c),
    ensures
        extends(a, c),
{
    assert forall|i: int| 0 <= i < a.len() implies #[trigger] c[i] == a[i] by {
        assert(c[i] == b[i]);
    }
}

/// Whether `call` succeeded.
pub open spec fn call_ok(call: FsCall) -> bool {
    match call {
        FsCall::CreateDirAll { answer, .. } => answer is Ok,
        FsCall::CreateDir { answer, .. } => answer is Ok,
        FsCall::CreateLock { answer, .. } => answer is Ok,
        FsCall::TryExists { answer, .. } => answer is Ok,
        FsCall::ReadDir { answer, .. } => answer is Ok,
        FsCall::WriteSynced { answer, .. } => answer is Ok,
        FsCall::FileLen { answer, .. } => answer is Ok,
        FsCall::SyncFile { answer, .. } => answer is Ok,
        FsCall::SyncDir { answer, .. } => answer is Ok,
        FsCall::Rename { answer, .. } => answer is Ok,
        FsCall::RemoveDirAll { answer, .. } => answer is Ok,
        FsCall::RemoveFile { answer, .. } => answer is Ok,
    }
}

/// The calls `after` holds past the first `before.len()` ones.
pub open spec fn calls_since(before: Seq<FsCall>, after: Seq<FsCall>) -> Seq<FsCall> {
    after.subrange(before.len() as int, after.len() as int)
}

/// Whether `call` created a lock or a directory.
pub open spec fn creates(call: FsCall) -> bool {
    ||| call matches FsCall::CreateLock { answer, .. } && answer is Ok
    ||| call matches FsCall::CreateDir { answer, .. } && answer is Ok
}

/// Whether no call of `log` from `start` on created a lock or a directory.
pub open spec fn creates_none(log: Seq<FsCall>, start: int) -> bool {
    forall|j: int| start <= j < log.len() ==> !creates(#[trigger] log[j])
}

/// Whether `call` removes the file at `path`.
pub open spec fn removes_file(call: FsCall, path: Seq<char>) -> bool {
    call matches FsCall::RemoveFile { path: p, .. } && p == path
}

/// Whether `call` clears the directory at `path`: removes it, or renames
/// it away.
pub open spec fn clears_dir(call: FsCall, path: Seq<char>) -> bool {
    ||| call matches FsCall::RemoveDirAll { path: p, .. } && p == path
    ||| call matches FsCall::Rename { from, answer, .. } && from == path && answer is Ok
}

/// Whether what `log[i]` created, if anything, is gone by the end of
/// `log`: a lock created there is removed later, a directory created there
/// is later removed or renamed away.
pub open spec fn undone_at(log: Seq<FsCall>, i: int) -> bool {
    match log[i] {
        FsCall::CreateLock { path, answer } => answer is Ok ==> exists|j: int|
            i < j < log.len() && #[trigger] removes_file(log[j], path),
        FsCall::CreateDir { path, answer } => answer is Ok ==> exists|j: int|
            i < j < log.len() && #[trigger] clears_dir(log[j], path),
        _ => true,
    }
}

/// Whether every lock and directory created in `log` from `start` on is
/// gone again by its end.
pub open spec fn all_undone(log: Seq<FsCall>, start: int) -> bool {
    forall|i: int| start <= i < log.len() ==> #[trigger] undone_at(log, i)
}

/// Calls that create nothing keep everything created before undone.
pub proof fn lemma_undone_extends(before: Seq<FsCall>, after: Seq<FsCall>, start: int)
    requires
        0 <= start,
        all_undone(before, start),
        extends(before, after),
        creates_none(after, before.len() as int),
    ensures
        all_undone(after, start),
{
    assert forall|i: int| start <= i < after.len() implies #[trigger] undone_at(after, i) by {
        if i < before.len() {
            assert(after[i] == before[i]);
            assert(undone_at(before, i));
            match before[i] {
                FsCall::CreateLock { path, answer } => {
                    if answer is Ok {
                        let j = choose|j: int| i < j < before.len() && #[trigger] removes_file(before[j], path);
                        assert(after[j] == before[j]);
                    }
                },
                FsCall::CreateDir { path, answer } => {
                    if answer is Ok {
                        let j = choose|j: int| i < j < before.len() && #[trigger] clears_dir(before[j], path);
                        assert(after[j] == before[j]);
                    }
                },
                _ => {},
            }
        } else {
            assert(!creates(after[i]));
        }
    }
}

/// One attempt at a name: besides a lock created at `lock_at` (when not
/// negative) and a directory created at `dir_at` (likewise), the calls
/// after `before` create nothing; the lock is removed at `lock_gone` and
/// the directory cleared at `dir_gone`. Then everything created is gone.
pub proof fn lemma_undone_attempt(
    before: Seq<FsCall>,
    after: Seq<FsCall>,
    start: int,
    lock_at: int,
    lock_gone: int,
    dir_at: int,
    dir_gone: int,
)
    requires
        0 <= start,
        all_undone(before, start),
        extends(before, after),
        forall|j: int| before.len() <= j < after.len() && j != lock_at && j != dir_at ==> !creates(#[trigger] after[j]),
        lock_at >= 0 ==> before.len() <= lock_at < lock_gone < after.len() && (after[lock_at] matches FsCall::CreateLock {
            path,
            ..
        } && removes_file(after[lock_gone], path)),
        dir_at >= 0 ==> before.len() <= dir_at < dir_gone < after.len() && (after[dir_at] matches FsCall::CreateDir {
            path,
            ..
        } && clears_dir(after[dir_gone], path)),
    ensures
        all_undone(after, start),
{
    assert forall|i: int| start <= i < after.len() implies #[trigger] undone_at(after, i) by {
        if i < before.len() {
            assert(after[i] == before[i]);
            assert(undone_at(before, i));
            match before[i] {
                FsCall::CreateLock { path, answer } => {
                    if answer is Ok {
                        let j = choose|j: int| i < j < before.len() && #[trigger] removes_file(before[j], path);
                        assert(after[j] == before[j]);
                    }
                },
                FsCall::CreateDir { path, answer } => {
                    if answer is Ok {
                        let j = choose|j: int| i < j < before.len() && #[trigger] clears_dir(before[j], path);
                        assert(after[j] == before[j]);
                    }
                },
                _ => {},
            }
        } else if i == lock_at {
            assert(removes_file(after[lock_gone], after[i]->CreateLock_path));
        } else if i == dir_at {
            assert(clears_dir(after[dir_gone], after[i]->CreateDir_path));
        } else {
            assert(!creates(after[i]));
        }
    }
}

/// What one stretch of calls leaves undone-free stays so when the next
/// stretch leaves its own creations undone.
pub proof fn lemma_undone_concat(mid: Seq<FsCall>, after: Seq<FsCall>, start: int)
    requires
        0 <= start <= mid.len(),
        all_undone(mid, start),
        extends(mid, after),
        all_undone(after, mid.len() as int),
    ensures
        all_undone(after, start),
{
    assert forall|i: int| start <= i < after.len() implies #[trigger] undone_at(after, i) by {
        if i < mid.len() {
            assert(after[i] == mid[i]);
            assert(undone_at(mid, i));
            match mid[i] {
                FsCall::CreateLock { path, answer } => {
                    if answer is Ok {
                        let j = choose|j: int| i < j < mid.len() && #[trigger] removes_file(mid[j], path);
                        assert(after[j] == mid[j]);
                    }
                },
                FsCall::CreateDir { path, answer } => {
                    if answer is Ok {
                        let j = choose|j: int| i < j < mid.len() && #[trigger] clears_dir(mid[j], path);
                        assert(after[j] == mid[j]);
                    }
                },
                _ => {},
            }
        }
    }
}

/// The view of a directory listing: the entries' names.
pub open spec fn listing_view(r: Result<Vec<String>, FsError>) -> Result<Seq<Seq<char>>, FsError> {
    match r {
        Ok(v) => Ok(v@.map_values(|n: String| n@)),
        Err(e) => Err(e),
    }
}

/// The filesystem operations a bundle is published with. Implemented over
/// the real filesystem by the application and by fakes in tests; the
/// library makes every call through [`LoggedFiles`], which records it.
pub trait PackageFileSystem {
    fn create_dir_all(&mut self, path: &str) -> Result<(), FsError>;

    fn create_dir(&mut self, path: &str) -> Result<(), FsError>;

    /// Creates an empty lock file, failing with
    /// [`FsError::AlreadyExists`] when `path` exists.
    fn create_lock(&mut self, path: &str) -> Result<(), FsError>;

    fn try_exists(&mut self, path: &str) -> Result<bool, FsError>;

    /// The names of the entries of directory `path`.
    fn read_dir(&mut self, path: &str) -> Result<Vec<String>, FsError>;

    /// Writes `bytes` to `path` and syncs it to disk.
    fn write_synced(&mut self, path: &str, bytes: &[u8]) -> Result<(), FsError>;

    fn file_len(&mut self, path: &str) -> Result<u64, FsError>;

    fn sync_file(&mut self, path: &str) -> Result<(), FsError>;

    fn sync_dir(&mut self, path: &str) -> Result<(), FsError>;

    fn rename(&mut self, from: &str, to: &str) -> Result<(), FsError>;

    fn remove_dir_all(&mut self, path: &str) -> Result<(), FsError>;

    fn remove_file(&mut self, path: &str) -> Result<(), FsError>;
}

/// A filesystem and the history of the operations made on it through this
/// handle: each with the paths and bytes it was handed and what the
/// filesystem answered, in order. Every method passes its call on and
/// appends it to the history.
pub struct LoggedFiles<F> {
    pub inner: F,
    history: Ghost<Seq<FsCall>>,
}

impl<F: PackageFileSystem> LoggedFiles<F> {
    /// The operations made so far through this handle, in order.
    pub closed spec fn log(&self) -> Seq<FsCall> {
        self.history@
    }

    /// A handle on `inner` with no operation made yet.
    pub fn new(inner: F) -> (r: Self)
        ensures
            r.log() == Seq::<FsCall>::empty(),
    {
        LoggedFiles { inner, history: Ghost(Seq::empty()) }
    }

    pub fn create_dir_all(&mut self, path: &str) -> (r: Result<(), FsError>)
        ensures
            final(self).log() == old(self).log().push(FsCall::CreateDirAll { path: path@, answer: r }),
    {
        let r = self.inner.create_dir_all(path);
        self.history = Ghost(self.history@.push(FsCall::CreateDirAll { path: path@, answer: r }));
        r
    }

    pub fn create_dir(&mut self, path: &str) -> (r: Result<(), FsError>)
        ensures
            final(self).log() == old(self).log().push(FsCall::CreateDir { path: path@, answer: r }),
    {
        let r = self.inner.create_dir(path);
        self.history = Ghost(self.history@.push(FsCall::CreateDir { path: path@, answer: r }));
        r
    }

    /// Creates an empty lock file, failing with
    /// [`FsError::AlreadyExists`] when `path` exists.
    pub fn create_lock(&mut self, path: &str) -> (r: Result<(), FsError>)
        ensures
            final(self).log() == old(self).log().push(FsCall::CreateLock { path: path@, answer: r }),
    {
        let r = self.inner.create_lock(path);
        self.history = Ghost(self.history@.push(FsCall::CreateLock { path: path@, answer: r }));
        r
    }

    pub fn try_exists(&mut self, path: &str) -> (r: Result<bool, FsError>)
        ensures
            final(self).log() == old(self).log().push(FsCall::TryExists { path: path@, answer: r }),
    {
        let r = self.inner.try_exists(path);
        self.history = Ghost(self.history@.push(FsCall::TryExists { path: path@, answer: r }));
        r
    }

    /// The names of the entries of directory `path`.
    pub fn read_dir(&mut self, path: &str) -> (r: Result<Vec<String>, FsError>)
        ensures
            final(self).log() == old(self).log().push(FsCall::ReadDir { path: path@, answer: listing_view(r) }),
    {
        let r = self.inner.read_dir(path);
        self.history = Ghost(self.history@.push(FsCall::ReadDir { path: path@, answer: listing_view(r) }));
        r
    }

    /// Writes `bytes` to `path` and syncs it to disk.
    pub fn write_synced(&mut self, path: &str, bytes: &[u8]) -> (r: Result<(), FsError>)
        ensures
            final(self).log() == old(self).log().push(FsCall::WriteSynced { path: path@, bytes: bytes@, answer: r }),
    {
        let r = self.inner.write_synced(path, bytes);
        self.history = Ghost(self.history@.push(FsCall::WriteSynced { path: path@, bytes: bytes@, answer: r }));
        r
    }

    pub fn file_len(&mut self, path: &str) -> (r: Result<u64, FsError>)
        ensures
            final(self).log() == old(self).log().push(FsCall::FileLen { path: path@, answer: r }),
    {
        let r = self.inner.file_len(path);
        self.history = Ghost(self.history@.push(FsCall::FileLen { path: path@, answer: r }));
        r
    }

    pub fn sync_file(&mut self, path: &str) -> (r: Result<(), FsError>)
        ensures
            final(self).log() == old(self).log().push(FsCall::SyncFile { path: path@, answer: r }),
    {
        let r = self.inner.sync_file(path);
        self.history = Ghost(self.history@.push(FsCall::SyncFile { path: path@, answer: r }));
        r
    }

    pub fn sync_dir(&mut self, path: &str) -> (r: Result<(), FsError>)
        ensures
            final(self).log() == old(self).log().push(FsCall::SyncDir { path: path@, answer: r }),
    {
        let r = self.inner.sync_dir(path);
        self.history = Ghost(self.history@.push(FsCall::SyncDir { path: path@, answer: r }));
        r
    }

    pub fn rename(&mut self, from: &str, to: &str) -> (r: Result<(), FsError>)
        ensures
            final(self).log() == old(self).log().push(FsCall::Rename { from: from@, to: to@, answer: r }),
    {
        let r = self.inner.rename(from, to);
        self.history = Ghost(self.history@.push(FsCall::Rename { from: from@, to: to@, answer: r }));
        r
    }

    pub fn remove_dir_all(&mut self, path: &str) -> (r: Result<(), FsError>)
        ensures
            final(self).log() == old(self).log().push(FsCall::RemoveDirAll { path: path@, answer: r }),
    {
        let r = self.inner.remove_dir_all(path);
        self.history = Ghost(self.history@.push(FsCall::RemoveDirAll { path: path@, answer: r }));
        r
    }

    pub fn remove_file(&mut self, path: &str) -> (r: Result<(), FsError>)
        ensures
            final(self).log() == old(self).log().push(FsCall::RemoveFile { path: path@, answer: r }),
    {
        let r = self.inner.remove_file(path);
        self.history = Ghost(self.history@.push(FsCall::RemoveFile { path: path@, answer: r }));
        r
    }
}

} // verus!
