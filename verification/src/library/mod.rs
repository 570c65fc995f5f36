//! The Library window's view of the destination: bundle folders scanned
//! newest first, grouped by local day, and the guarded operations on one
//! bundle (reveal, delete, thumbnail).
pub mod guard;
pub mod scan;
pub mod group;
pub mod thumbnail;
pub mod actions;

pub use crate::library::actions::open_replay_file;
pub use crate::library::group::{LibraryEntry, LibraryGroup};

use vstd::prelude::*;
use crate::library::group::{day_caption, days_near, group_by_day, grouped, groups_match, scanned_bytes, today_local};
use crate::library::scan::{entries_of, metadata_view, newest_first_of, scan, BundleFolder};

verus! {

/// The disk as the library reads and writes it. Implemented over the real
/// filesystem by the application and by fakes in tests; the library makes
/// every call through [`LoggedDisk`], which records it.
pub trait LibraryDisk {
    /// Whether `path` names an existing regular file.
    fn is_file(&self, path: &str) -> bool;

    /// Whether `path` names an existing directory.
    fn is_dir(&self, path: &str) -> bool;

    /// The size and modification time (Unix milliseconds, 0 when unknown)
    /// of the file at `path`, when it can be read.
    fn file_stamp(&self, path: &str) -> Option<(u64, u64)>;

    /// The contents of the file at `path`, when it can be read.
    fn read_file(&self, path: &str) -> Option<Vec<u8>>;

    /// Writes `bytes` to the file at `path`; whether that succeeded.
    fn write_file(&self, path: &str, bytes: &[u8]) -> bool;

    /// Creates directory `path` and its parents; whether it exists after.
    fn create_dir_all(&self, path: &str) -> bool;

    /// Removes the file at `path`; whether that succeeded.
    fn remove_file(&self, path: &str) -> bool;
}

/// One call the library made on the disk, with what it was handed and
/// what the disk answered.
pub enum DiskCall {
    IsFile { path: Seq<char>, answer: bool },
    IsDir { path: Seq<char>, answer: bool },
    FileStamp { path: Seq<char>, answer: Option<(u64, u64)> },
    ReadFile { path: Seq<char>, answer: Option<Seq<u8>> },
    WriteFile { path: Seq<char>, bytes: Seq<u8>, answer: bool },
    CreateDirAll { path: Seq<char>, answer: bool },
    RemoveFile { path: Seq<char>, answer: bool },
}

/// A disk and the history of the calls made on it through this handle, in
/// order. Every method passes its call on and appends it to the history.
pub struct LoggedDisk<D> {
    pub inner: D,
    history: Ghost<Seq<DiskCall>>,
}

impl<D: LibraryDisk> LoggedDisk<D> {
    /// The calls made so far through this handle, in order.
    pub closed spec fn log(&self) -> Seq<DiskCall> {
        self.history@
    }

    /// A handle on `inner` with no call made yet.
    pub fn new(inner: D) -> (r: Self)
        ensures
            r.log() == Seq::<DiskCall>::empty(),
    {
        LoggedDisk { inner, history: Ghost(Seq::empty()) }
    }

    /// Whether `path` names an existing regular file.
    pub fn is_file(&mut self, path: &str) -> (r: bool)
        ensures
            final(self).log() == old(self).log().push(DiskCall::IsFile { path: path@, answer: r }),
    {
        let r = self.inner.is_file(path);
        self.history = Ghost(self.history@.push(DiskCall::IsFile { path: path@, answer: r }));
        r
    }

    /// Whether `path` names an existing directory.
    pub fn is_dir(&mut self, path: &str) -> (r: bool)
        ensures
            final(self).log() == old(self).log().push(DiskCall::IsDir { path: path@, answer: r }),
    {
        let r = self.inner.is_dir(path);
        self.history = Ghost(self.history@.push(DiskCall::IsDir { path: path@, answer: r }));
        r
    }

    /// The size and modification time (Unix milliseconds, 0 when unknown)
    /// of the file at `path`, when it can be read.
    pub fn file_stamp(&mut self, path: &str) -> (r: Option<(u64, u64)>)
        ensures
            final(self).log() == old(self).log().push(DiskCall::FileStamp { path: path@, answer: r }),
    {
        let r = self.inner.file_stamp(path);
        self.history = Ghost(self.history@.push(DiskCall::FileStamp { path: path@, answer: r }));
        r
    }

    /// The contents of the file at `path`, when it can be read.
    pub fn read_file(&mut self, path: &str) -> (r: Option<Vec<u8>>)
        ensures
            final(self).log() == old(self).log().push(DiskCall::ReadFile { path: path@, answer: metadata_view(r) }),
    {
        let r = self.inner.read_file(path);
        self.history = Ghost(self.history@.push(DiskCall::ReadFile { path: path@, answer: metadata_view(r) }));
        r
    }

    /// Writes `bytes` to the file at `path`; whether that succeeded.
    pub fn write_file(&mut self, path: &str, bytes: &[u8]) -> (r: bool)
        ensures
            final(self).log() == old(self).log().push(DiskCall::WriteFile { path: path@, bytes: bytes@, answer: r }),
    {
        let r = self.inner.write_file(path, bytes);
        self.history = Ghost(self.history@.push(DiskCall::WriteFile { path: path@, bytes: bytes@, answer: r }));
        r
    }

    /// Creates directory `path` and its parents; whether it exists after.
    pub fn create_dir_all(&mut self, path: &str) -> (r: bool)
        ensures
            final(self).log() == old(self).log().push(DiskCall::CreateDirAll { path: path@, answer: r }),
    {
        let r = self.inner.create_dir_all(path);
        self.history = Ghost(self.history@.push(DiskCall::CreateDirAll { path: path@, answer: r }));
        r
    }

    /// Removes the file at `path`; whether that succeeded.
    pub fn remove_file(&mut self, path: &str) -> (r: bool)
        ensures
            final(self).log() == old(self).log().push(DiskCall::RemoveFile { path: path@, answer: r }),
    {
        let r = self.inner.remove_file(path);
        self.history = Ghost(self.history@.push(DiskCall::RemoveFile { path: path@, answer: r }));
        r
    }
}

/// The day-grouped library, with totals over every group.
#[derive(Debug, Clone, PartialEq, Eq)]
pub struct LibraryIndex {
    pub groups: Vec<LibraryGroup>,
    pub total_count: u32,
    pub total_bytes: u64,
}

/// The library index of the bundle folders read from the destination:
/// scanned newest first, grouped by local day, with the total count and
/// size of every entry. The days come from the machine's clock and time
/// zone, so the groups are stated for the days chrono gave.
pub fn index(folders: &Vec<BundleFolder>) -> (r: LibraryIndex)
    requires
        entries_of(folders@).len() <= u32::MAX,
        scanned_bytes(newest_first_of(entries_of(folders@))) <= u64::MAX,
    ensures
        r.total_count == entries_of(folders@).len(),
        r.total_bytes == scanned_bytes(newest_first_of(entries_of(folders@))),
        exists|today: i32, days: Seq<i32>|
            #![trigger grouped(newest_first_of(entries_of(folders@)), days, today)]
            days.len() == entries_of(folders@).len() && day_caption(today) is Some && days_near(
                newest_first_of(entries_of(folders@)),
                days,
            ) && groups_match(
                r.groups@,
                grouped(newest_first_of(entries_of(folders@)), days, today),
            ),
{
    let entries = scan(folders);
    proof {
        crate::library::scan::lemma_newest_first_len(entries_of(folders@));
    }
    let total_count = entries.len() as u32;
    let mut total_bytes: u64 = 0;
    let mut i: usize = 0;
    while i < entries.len()
        invariant
            i <= entries@.len(),
            entries@ == newest_first_of(entries_of(folders@)),
            scanned_bytes(entries@) <= u64::MAX,
            total_bytes == scanned_bytes(entries@.take(i as int)),
        decreases entries@.len() - i,
    {
        proof {
            assert(entries@.take(i + 1).drop_last() =~= entries@.take(i as int));
            lemma_prefix_bytes(entries@, i as int + 1);
        }
        total_bytes = total_bytes + entries[i].total_bytes;
        i = i + 1;
    }
    proof {
        assert(entries@.take(entries@.len() as int) =~= entries@);
    }
    let today = today_local();
    let groups = group_by_day(entries, today);
    LibraryIndex { groups, total_count, total_bytes }
}

proof fn lemma_prefix_bytes(s: Seq<crate::library::scan::ScannedEntry>, k: int)
    requires
        0 <= k <= s.len(),
    ensures
        scanned_bytes(s.take(k)) <= scanned_bytes(s),
    decreases s.len(),
{
    if k < s.len() {
        lemma_prefix_bytes(s.drop_last(), k);
        assert(s.drop_last().take(k) =~= s.take(k));
        lemma_bytes_nonneg_last(s);
    } else {
        assert(s.take(k) =~= s);
    }
}

proof fn lemma_bytes_nonneg_last(s: Seq<crate::library::scan::ScannedEntry>)
    requires
        s.len() > 0,
    ensures
        scanned_bytes(s.drop_last()) <= scanned_bytes(s),
{
}

} // verus!
