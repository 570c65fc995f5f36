//! Reading bundle folders into library entries, newest first.
use vstd::prelude::*;
use crate::json::{bool_at, json_bool_at, json_u64_at, u64_at};
use crate::packager::publish::{lock_name, partial_name};

verus! {

/// What a scan reads about one folder directly inside the destination.
#[derive(Debug, Clone, PartialEq, Eq)]
pub struct BundleFolder {
    /// The folder's name.
    pub name: String,
    /// The bytes of its `metadata.json`, when that file could be read.
    pub metadata: Option<Vec<u8>>,
    /// The folder's modification time, 0 when unknown.
    pub modified_unix_ms: u64,
    /// The sum of the sizes of every file below the folder.
    pub total_bytes: u64,
}

/// One bundle folder read off disk, before day grouping.
#[derive(Debug, Clone, PartialEq, Eq)]
pub struct ScannedEntry {
    pub id: String,
    pub display_name: String,
    pub saved_at_unix_ms: u64,
    pub duration_seconds: Option<u64>,
    pub total_bytes: u64,
    pub trimmed: bool,
}

impl ScannedEntry {
    /// The same entry, copied.
    pub fn duplicate(&self) -> (r: ScannedEntry)
        ensures
            r == *self,
    {
        ScannedEntry {
            id: self.id.clone(),
            display_name: self.display_name.clone(),
            saved_at_unix_ms: self.saved_at_unix_ms,
            duration_seconds: self.duration_seconds,
            total_bytes: self.total_bytes,
            trimmed: self.trimmed,
        }
    }
}

/// The whole seconds of the evidence window a metadata document records:
/// `None` unless both ends are recorded and the end is not before the
/// start.
pub open spec fn evidence_seconds(metadata: Seq<u8>) -> Option<u64> {
    match json_u64_at(metadata, "/evidence/startUnixMs"@) {
        None => None,
        Some(start) => match json_u64_at(metadata, "/evidence/endUnixMs"@) {
            None => None,
            Some(end) => if end >= start {
                Some(((end - start) / 1000) as u64)
            } else {
                None
            },
        },
    }
}

/// When the bundle was saved: the metadata's `createdAtUnixMs`, else the
/// folder's modification time.
pub open spec fn saved_at_of(metadata: Option<Seq<u8>>, folder_modified_unix_ms: u64) -> u64 {
    match metadata {
        Some(m) => match json_u64_at(m, "/createdAtUnixMs"@) {
            Some(t) => t,
            None => folder_modified_unix_ms,
        },
        None => folder_modified_unix_ms,
    }
}

/// Whether the metadata marks the bundle as trimmed; `false` when it does
/// not say.
pub open spec fn trimmed_of(metadata: Option<Seq<u8>>) -> bool {
    match metadata {
        Some(m) => json_bool_at(m, "/trimmed"@) == Some(true),
        None => false,
    }
}

/// The view of optional metadata bytes.
pub open spec fn metadata_view(metadata: Option<Vec<u8>>) -> Option<Seq<u8>> {
    match metadata {
        Some(m) => Some(m@),
        None => None,
    }
}

/// The entry a folder reads as: none for a hidden folder (interrupted
/// export workspaces and locks), else one named by the folder whose saved
/// time, duration and trimmed flag come from its metadata, degraded rather
/// than failed when the metadata is missing or unreadable.
pub open spec fn entry_of(folder: BundleFolder) -> Option<ScannedEntry> {
    if folder.name@.len() > 0 && folder.name@[0] == '.' {
        None
    } else {
        let m = metadata_view(folder.metadata);
        Some(ScannedEntry {
            id: folder.name,
            display_name: folder.name,
            saved_at_unix_ms: saved_at_of(m, folder.modified_unix_ms),
            duration_seconds: match m {
                Some(b) => evidence_seconds(b),
                None => None,
            },
            total_bytes: folder.total_bytes,
            trimmed: trimmed_of(m),
        })
    }
}

/// The whole seconds of the evidence window `metadata` records (see
/// [`evidence_seconds`]).
pub fn duration_from_metadata(metadata: &Vec<u8>) -> (r: Option<u64>)
    ensures
        r == evidence_seconds(metadata@),
{
    let start = match u64_at(metadata.as_slice(), "/evidence/startUnixMs") {
        Some(v) => v,
        None => return None,
    };
    let end = match u64_at(metadata.as_slice(), "/evidence/endUnixMs") {
        Some(v) => v,
        None => return None,
    };
    if end >= start {
        Some((end - start) / 1000)
    } else {
        None
    }
}

/// The library entry `folder` reads as (see [`entry_of`]).
pub fn scan_bundle(folder: &BundleFolder) -> (r: Option<ScannedEntry>)
    ensures
        r == entry_of(*folder),
{
    let name = folder.name.as_str();
    if name.unicode_len() > 0 && name.get_char(0) == '.' {
        return None;
    }
    let (saved_at_unix_ms, duration_seconds, trimmed) = match &folder.metadata {
        Some(m) => {
            let saved = match u64_at(m.as_slice(), "/createdAtUnixMs") {
                Some(t) => t,
                None => folder.modified_unix_ms,
            };
            let trimmed = match bool_at(m.as_slice(), "/trimmed") {
                Some(b) => b,
                None => false,
            };
            (saved, duration_from_metadata(m), trimmed)
        },
        None => (folder.modified_unix_ms, None, false),
    };
    Some(
        ScannedEntry {
            id: folder.name.clone(),
            display_name: folder.name.clone(),
            saved_at_unix_ms,
            duration_seconds,
            total_bytes: folder.total_bytes,
            trimmed,
        },
    )
}


/// `x` placed into `s` after every element of its tail end that is at
/// least as new: scanning back from the end, `x` passes only the entries
/// strictly older than it, so entries saved at the same time keep their
/// order.
pub open spec fn insert_newest(s: Seq<ScannedEntry>, x: ScannedEntry) -> Seq<ScannedEntry>
    decreases s.len(),
{
    if s.len() == 0 {
        seq![x]
    } else if s.last().saved_at_unix_ms >= x.saved_at_unix_ms {
        s.push(x)
    } else {
        insert_newest(s.drop_last(), x).push(s.last())
    }
}

/// `s` ordered newest first by saved time, by a stable insertion.
pub open spec fn newest_first_of(s: Seq<ScannedEntry>) -> Seq<ScannedEntry>
    decreases s.len(),
{
    if s.len() == 0 {
        s
    } else {
        insert_newest(newest_first_of(s.drop_last()), s.last())
    }
}

/// Whether `s` runs from newest to oldest.
pub open spec fn is_newest_first(s: Seq<ScannedEntry>) -> bool {
    forall|i: int, j: int|
        0 <= i < j < s.len() ==> #[trigger] s[i].saved_at_unix_ms >= #[trigger] s[j].saved_at_unix_ms
}

/// The entries the folders read as, in folder order.
pub open spec fn entries_of(folders: Seq<BundleFolder>) -> Seq<ScannedEntry>
    decreases folders.len(),
{
    if folders.len() == 0 {
        Seq::empty()
    } else {
        let rest = entries_of(folders.drop_last());
        match entry_of(folders.last()) {
            Some(e) => rest.push(e),
            None => rest,
        }
    }
}

proof fn lemma_insert_at(s: Seq<ScannedEntry>, x: ScannedEntry, j: int)
    requires
        0 <= j <= s.len(),
        forall|k: int| j <= k < s.len() ==> #[trigger] s[k].saved_at_unix_ms < x.saved_at_unix_ms,
        j == 0 || s[j - 1].saved_at_unix_ms >= x.saved_at_unix_ms,
    ensures
        insert_newest(s, x) == s.take(j).push(x) + s.skip(j),
    decreases s.len(),
{
    if s.len() == 0 {
        assert(s.take(j).push(x) + s.skip(j) =~= seq![x]);
    } else if j == s.len() {
        assert(s.take(j).push(x) + s.skip(j) =~= s.push(x));
    } else {
        lemma_insert_at(s.drop_last(), x, j);
        assert(s.take(j).push(x) + s.skip(j) =~= (s.drop_last().take(j).push(x) + s.drop_last().skip(
            j,
        )).push(s.last()));
    }
}

proof fn lemma_insert_keeps_order(s: Seq<ScannedEntry>, x: ScannedEntry)
    requires
        is_newest_first(s),
    ensures
        is_newest_first(insert_newest(s, x)),
        insert_newest(s, x).to_multiset() == s.to_multiset().insert(x),
    decreases s.len(),
{
    broadcast use vstd::seq_lib::group_seq_properties;
    if s.len() == 0 {
        assert(seq![x] =~= Seq::<ScannedEntry>::empty().push(x));
    } else if s.last().saved_at_unix_ms >= x.saved_at_unix_ms {
        let r = s.push(x);
        assert forall|i: int, j: int| 0 <= i < j < r.len() implies #[trigger] r[i].saved_at_unix_ms
            >= #[trigger] r[j].saved_at_unix_ms by {
            if j == s.len() {
                if i < s.len() - 1 {
                    assert(s[i].saved_at_unix_ms >= s[s.len() - 1].saved_at_unix_ms);
                }
            }
        }
    } else {
        let t = s.drop_last();
        assert(is_newest_first(t)) by {
            assert forall|i: int, j: int| 0 <= i < j < t.len() implies #[trigger] t[i].saved_at_unix_ms
                >= #[trigger] t[j].saved_at_unix_ms by {
                assert(s[i].saved_at_unix_ms >= s[j].saved_at_unix_ms);
            }
        }
        lemma_insert_keeps_order(t, x);
        let u = insert_newest(t, x);
        let r = u.push(s.last());
        assert(u.to_multiset() == t.to_multiset().insert(x));
        assert forall|k: int| 0 <= k < u.len() implies #[trigger] u[k].saved_at_unix_ms
            >= s.last().saved_at_unix_ms by {
            assert(u.to_multiset().count(u[k]) > 0);
            assert(t.to_multiset().insert(x).count(u[k]) > 0);
            if u[k] != x {
                assert(t.to_multiset().count(u[k]) > 0);
                assert(t.contains(u[k]));
                let m = choose|m: int| 0 <= m < t.len() && t[m] == u[k];
                assert(s[m] == t[m]);
                assert(s[m].saved_at_unix_ms >= s[s.len() - 1].saved_at_unix_ms);
            }
        }
        assert forall|i: int, j: int| 0 <= i < j < r.len() implies #[trigger] r[i].saved_at_unix_ms
            >= #[trigger] r[j].saved_at_unix_ms by {
            if j == u.len() {
                assert(r[i] == u[i]);
            } else {
                assert(r[i] == u[i] && r[j] == u[j]);
            }
        }
        assert(s =~= t.push(s.last()));
        assert(s.to_multiset() == t.to_multiset().insert(s.last()));
    }
}

proof fn lemma_insert_len(s: Seq<ScannedEntry>, x: ScannedEntry)
    ensures
        insert_newest(s, x).len() == s.len() + 1,
    decreases s.len(),
{
    if s.len() > 0 {
        lemma_insert_len(s.drop_last(), x);
    }
}

/// Ordering newest first keeps the number of entries.
pub proof fn lemma_newest_first_len(s: Seq<ScannedEntry>)
    ensures
        newest_first_of(s).len() == s.len(),
    decreases s.len(),
{
    if s.len() > 0 {
        lemma_newest_first_len(s.drop_last());
        lemma_insert_len(newest_first_of(s.drop_last()), s.last());
    }
}

/// Law: a scan lists every bundle exactly once, newest first.
pub proof fn lemma_newest_first_is_an_ordering(s: Seq<ScannedEntry>)
    ensures
        is_newest_first(newest_first_of(s)),
        newest_first_of(s).to_multiset() == s.to_multiset(),
    decreases s.len(),
{
    broadcast use vstd::seq_lib::group_seq_properties;
    if s.len() > 0 {
        lemma_newest_first_is_an_ordering(s.drop_last());
        lemma_insert_keeps_order(newest_first_of(s.drop_last()), s.last());
        assert(s =~= s.drop_last().push(s.last()));
    }
}

/// The entries of `folders`, hidden folders skipped, ordered newest first
/// (see [`entries_of`] and [`newest_first_of`]).
pub fn scan(folders: &Vec<BundleFolder>) -> (r: Vec<ScannedEntry>)
    ensures
        r@ == newest_first_of(entries_of(folders@)),
        is_newest_first(r@),
        r@.to_multiset() == entries_of(folders@).to_multiset(),
{
    let mut r: Vec<ScannedEntry> = Vec::new();
    let mut i: usize = 0;
    while i < folders.len()
        invariant
            i <= folders@.len(),
            r@ == newest_first_of(entries_of(folders@.take(i as int))),
        decreases folders@.len() - i,
    {
        proof {
            assert(folders@.take(i + 1).drop_last() =~= folders@.take(i as int));
            assert(folders@.take(i + 1).last() == folders@[i as int]);
        }
        match scan_bundle(&folders[i]) {
            Some(e) => {
                let mut j: usize = r.len();
                while j > 0 && r[j - 1].saved_at_unix_ms < e.saved_at_unix_ms
                    invariant
                        j <= r@.len(),
                        forall|k: int| j <= k < r@.len() ==> #[trigger] r@[k].saved_at_unix_ms
                            < e.saved_at_unix_ms,
                    decreases j,
                {
                    j = j - 1;
                }
                let ghost before = r@;
                proof {
                    lemma_insert_at(before, e, j as int);
                    let prev = entries_of(folders@.take(i as int));
                    assert(prev.push(e).drop_last() =~= prev);
                }
                r.insert(j, e);
                proof {
                    assert(r@ =~= before.take(j as int).push(e) + before.skip(j as int));
                }
            },
            None => {},
        }
        i = i + 1;
    }
    proof {
        assert(folders@.take(folders@.len() as int) =~= folders@);
        lemma_newest_first_is_an_ordering(entries_of(folders@));
    }
    r
}

/// Law: the library never lists the hidden workspace or the lock of an
/// export in progress: their names start with a dot.
pub proof fn lemma_export_workspaces_are_not_listed(folder: BundleFolder, name: Seq<char>, pid: u32, nonce: u64)
    requires
        folder.name@ == partial_name(name, pid, nonce) || folder.name@ == lock_name(name, pid),
    ensures
        entry_of(folder) is None,
{
    reveal_strlit(".");
    assert(folder.name@[0] == '.');
}

} // verus!
