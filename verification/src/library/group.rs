//! Grouping newest-first entries by local calendar day, labelled `Today`,
//! `Yesterday` or `Mon, Aug 10`.
use vstd::prelude::*;
use crate::library::scan::ScannedEntry;
use chrono::{Datelike, Offset, TimeZone};
use std::fmt::Write;

verus! {

/// One replay as the Library window lists it.
#[derive(Debug, Clone, PartialEq, Eq)]
pub struct LibraryEntry {
    pub id: String,
    pub display_name: String,
    pub saved_at_unix_ms: u64,
    pub duration_seconds: Option<u64>,
    pub total_bytes: u64,
    pub trimmed: bool,
}

/// The replays saved on one local day, with their count and combined size.
#[derive(Debug, Clone, PartialEq, Eq)]
pub struct LibraryGroup {
    pub label: String,
    pub count: u32,
    pub total_bytes: u64,
    pub entries: Vec<LibraryEntry>,
}

/// The format of a day's caption, such as `Mon, Aug 10`.
pub const DAY_CAPTION_FORMAT: &'static str = "%a, %b %-d";

/// chrono's rendering, with the strftime-style `format`, of the date
/// `days_from_ce` days into the common era (day 1 is 0001-01-01); `None`
/// when chrono has no such date or the format does not render.
pub uninterp spec fn date_text(days_from_ce: i32, format: Seq<char>) -> Option<Seq<char>>;

/// The caption of a day (see [`DAY_CAPTION_FORMAT`]).
pub open spec fn day_caption(days_from_ce: i32) -> Option<Seq<char>> {
    date_text(days_from_ce, DAY_CAPTION_FORMAT@)
}

/// The UTC date of a Unix time in milliseconds, in days from the common
/// era (0001-01-01 is day 1, 1970-01-01 day 719,163).
pub open spec fn utc_day(unix_ms: int) -> int {
    unix_ms / 86_400_000 + 719_163
}

/// Whether `day` is within one day of the UTC date of `unix_ms`: what any
/// local date of that time is, a time zone's offset from UTC being less
/// than a day.
pub open spec fn near_day(day: int, unix_ms: int) -> bool {
    utc_day(unix_ms) - 1 <= day <= utc_day(unix_ms) + 1
}

/// Unix times in milliseconds up to this far from 1970 lie well inside
/// chrono's range (about 262,000 years either side of the common era), so
/// their local date always exists.
pub const CHRONO_SAFE_MS: u64 = 8_000_000_000_000_000;

/// What the machine's time zone makes of one Unix time: a single local
/// date (in days from the common era), two candidates, or none.
pub enum LocalDay {
    Single(i32),
    Ambiguous,
    Missing,
}

/// The same reading, formatted: the text of a single local time (`None`
/// when the format does not render), or the other two outcomes.
pub enum LocalText {
    Single(Option<String>),
    Ambiguous,
    Missing,
}

/// Calls `chrono::Local::now`, then `date_naive` and `num_days_from_ce`:
/// today's date in the machine's time zone. Trusted: the result rests on
/// the clock and the time zone, so all that is claimed is that it is a
/// date chrono holds, whose caption therefore renders (the caption's
/// format has no specifier that can fail on a date).
#[verifier::external_body]
pub(crate) fn today_local() -> (r: i32)
    ensures
        day_caption(r) is Some,
{
    chrono::Local::now().date_naive().num_days_from_ce()
}

/// Calls `chrono::Local::timestamp_millis_opt` and, for a single local
/// time, adds its offset to the UTC time with `checked_add_offset`, then
/// takes `num_days_from_ce` of the date; a local time past chrono's range
/// reads as `Missing`. Trusted: the date rests on the time zone, so what
/// is claimed is what holds in every zone. A single date is one whose
/// caption renders, and it is the UTC date (`from_timestamp` takes
/// `secs.div_euclid(86_400) + 719_163` days) moved by at most one day,
/// since `checked_add_offset` adds a `FixedOffset` (less than a day either
/// way, see `FixedOffset::east_opt`) and moves the date by `pred_opt` or
/// `succ_opt` at most. `timestamp_millis_opt` is documented to give
/// `Single` for every time chrono can represent, and `checked_add_offset`
/// fails only outside `NaiveDateTime`'s range, so a time well inside it
/// (see [`CHRONO_SAFE_MS`]) always reads as a single date.
#[verifier::external_body]
fn local_day_of(millis: i64) -> (r: LocalDay)
    ensures
        r matches LocalDay::Single(d) ==> day_caption(d) is Some && near_day(d as int, millis as int),
        -CHRONO_SAFE_MS <= millis <= CHRONO_SAFE_MS ==> r is Single,
{
    match chrono::Local.timestamp_millis_opt(millis) {
        chrono::LocalResult::Single(t) => match t.naive_utc().checked_add_offset(t.offset().fix()) {
            Some(local) => LocalDay::Single(local.date().num_days_from_ce()),
            None => LocalDay::Missing,
        },
        chrono::LocalResult::Ambiguous(_, _) => LocalDay::Ambiguous,
        chrono::LocalResult::None => LocalDay::Missing,
    }
}

/// Calls `chrono::Local::timestamp_millis_opt` and writes a single local
/// time with `format` into a string (`None` when the format fails).
/// Trusted only in that it returns: the text rests on the time zone.
#[verifier::external_body]
pub(crate) fn local_text_of(millis: i64, format: &str) -> LocalText {
    match chrono::Local.timestamp_millis_opt(millis) {
        chrono::LocalResult::Single(t) => {
            let mut text = String::new();
            LocalText::Single(write!(text, "{}", t.format(format)).ok().map(|_| text))
        },
        chrono::LocalResult::Ambiguous(_, _) => LocalText::Ambiguous,
        chrono::LocalResult::None => LocalText::Missing,
    }
}

/// Calls `chrono::Local::now` and writes it with `format` into a string
/// (`None` when the format fails). Trusted only in that it returns: the
/// text rests on the clock and the time zone.
#[verifier::external_body]
pub(crate) fn now_text(format: &str) -> Option<String> {
    let mut text = String::new();
    write!(text, "{}", chrono::Local::now().format(format)).ok().map(|_| text)
}

/// The local date of a Unix time in milliseconds: the single date the
/// machine's time zone gives it, else (a time past `i64`, an ambiguous or
/// missing local time) today's date.
pub fn local_day(unix_ms: u64) -> (r: i32)
    ensures
        day_caption(r) is Some,
        unix_ms <= CHRONO_SAFE_MS ==> near_day(r as int, unix_ms as int),
{
    if unix_ms <= i64::MAX as u64 {
        if let LocalDay::Single(day) = local_day_of(unix_ms as i64) {
            return day;
        }
    }
    today_local()
}

/// Calls `chrono::NaiveDate::from_num_days_from_ce_opt` and writes the
/// date with `format` into a string. Trusted: the result is the named
/// [`date_text`] of the day and format.
#[verifier::external_body]
pub(crate) fn caption(days_from_ce: i32, format: &str) -> (r: Option<String>)
    ensures
        r matches Some(s) ==> date_text(days_from_ce, format@) == Some(s@),
        r is None ==> date_text(days_from_ce, format@) is None,
{
    let date = chrono::NaiveDate::from_num_days_from_ce_opt(days_from_ce)?;
    let mut text = String::new();
    write!(text, "{}", date.format(format)).ok()?;
    Some(text)
}

/// The label of a day group: `Today`, `Yesterday` for the day before
/// `today`, else the day's caption.
pub open spec fn label_of(day: i32, today: i32) -> Seq<char> {
    if day == today {
        "Today"@
    } else if day + 1 == today {
        "Yesterday"@
    } else {
        day_caption(day).unwrap()
    }
}

/// The label of `day`'s group (see [`label_of`]).
pub fn day_label(day: i32, today: i32) -> (r: String)
    requires
        day_caption(day) is Some,
    ensures
        r@ == label_of(day, today),
{
    if day == today {
        "Today".to_string()
    } else if day < today && day == today - 1 {
        "Yesterday".to_string()
    } else {
        match caption(day, DAY_CAPTION_FORMAT) {
            Some(text) => text,
            None => String::new(),
        }
    }
}

/// The library entry for a scanned one: the same fields.
pub open spec fn library_entry_of(e: ScannedEntry) -> LibraryEntry {
    LibraryEntry {
        id: e.id,
        display_name: e.display_name,
        saved_at_unix_ms: e.saved_at_unix_ms,
        duration_seconds: e.duration_seconds,
        total_bytes: e.total_bytes,
        trimmed: e.trimmed,
    }
}

/// The library entry for `entry` (see [`library_entry_of`]).
pub fn to_library_entry(entry: ScannedEntry) -> (r: LibraryEntry)
    ensures
        r == library_entry_of(entry),
{
    LibraryEntry {
        id: entry.id,
        display_name: entry.display_name,
        saved_at_unix_ms: entry.saved_at_unix_ms,
        duration_seconds: entry.duration_seconds,
        total_bytes: entry.total_bytes,
        trimmed: entry.trimmed,
    }
}

/// A day group as the contracts see it: its day, label and entries.
pub type GroupModel = (i32, Seq<char>, Seq<LibraryEntry>);

/// Entries grouped by day: each entry joins the last group when it falls
/// on that group's day, else opens a new group labelled for its day.
pub open spec fn grouped(entries: Seq<ScannedEntry>, days: Seq<i32>, today: i32) -> Seq<GroupModel>
    decreases entries.len(),
{
    if entries.len() == 0 {
        Seq::empty()
    } else {
        let n = entries.len() - 1;
        let prev = grouped(entries.drop_last(), days.take(n), today);
        let e = library_entry_of(entries.last());
        let d = days[n];
        if prev.len() > 0 && prev.last().0 == d {
            prev.update(prev.len() - 1, (d, prev.last().1, prev.last().2.push(e)))
        } else {
            prev.push((d, label_of(d, today), seq![e]))
        }
    }
}

/// The combined size of entries.
pub open spec fn bytes_of(s: Seq<LibraryEntry>) -> int
    decreases s.len(),
{
    if s.len() == 0 {
        0
    } else {
        bytes_of(s.drop_last()) + s.last().total_bytes
    }
}

/// The combined size of scanned entries.
pub open spec fn scanned_bytes(s: Seq<ScannedEntry>) -> int
    decreases s.len(),
{
    if s.len() == 0 {
        0
    } else {
        scanned_bytes(s.drop_last()) + s.last().total_bytes
    }
}

/// The combined size of every entry of every group.
pub open spec fn groups_bytes(g: Seq<GroupModel>) -> int
    decreases g.len(),
{
    if g.len() == 0 {
        0
    } else {
        groups_bytes(g.drop_last()) + bytes_of(g.last().2)
    }
}

/// The number of entries over every group.
pub open spec fn groups_count(g: Seq<GroupModel>) -> int
    decreases g.len(),
{
    if g.len() == 0 {
        0
    } else {
        groups_count(g.drop_last()) + g.last().2.len()
    }
}

/// Whether `groups` are the day groups `model`: same labels and entries,
/// each with its entry count and combined size.
pub open spec fn groups_match(groups: Seq<LibraryGroup>, model: Seq<GroupModel>) -> bool {
    &&& groups.len() == model.len()
    &&& forall|k: int|
        0 <= k < groups.len() ==> {
            &&& (#[trigger] groups[k]).label@ == model[k].1
            &&& groups[k].entries@ == model[k].2
            &&& groups[k].count == model[k].2.len()
            &&& groups[k].total_bytes == bytes_of(model[k].2)
        }
}

/// Groups newest-first `entries`, whose local days are `days`, by day
/// (see [`grouped`]).
pub fn group_by_days(entries: Vec<ScannedEntry>, days: &Vec<i32>, today: i32) -> (r: Vec<LibraryGroup>)
    requires
        days@.len() == entries@.len(),
        entries@.len() <= u32::MAX,
        scanned_bytes(entries@) <= u64::MAX,
        forall|k: int| 0 <= k < days@.len() ==> day_caption(#[trigger] days@[k]) is Some,
    ensures
        groups_match(r@, grouped(entries@, days@, today)),
{
    let ghost all = entries@;
    let mut groups: Vec<LibraryGroup> = Vec::new();
    let mut last_day: i32 = 0;
    let mut i: usize = 0;
    let n = entries.len();
    let mut source = entries;
    let mut remaining: Vec<ScannedEntry> = Vec::new();
    while source.len() > 0
        invariant
            n == all.len(),
            source@ == all.take(source@.len() as int),
            remaining@.len() + source@.len() == n,
            forall|k: int| 0 <= k < remaining@.len() ==> #[trigger] remaining@[k] == all[n - 1 - k],
        decreases source@.len(),
    {
        let e = source.pop().unwrap();
        remaining.push(e);
    }
    while i < n
        invariant
            n == all.len() == days@.len(),
            n <= u32::MAX,
            scanned_bytes(all) <= u64::MAX,
            forall|k: int| 0 <= k < days@.len() ==> day_caption(#[trigger] days@[k]) is Some,
            i <= n,
            remaining@.len() == n - i,
            forall|k: int| 0 <= k < n - i ==> #[trigger] remaining@[k] == all[n - 1 - k],
            groups_match(groups@, grouped(all.take(i as int), days@.take(i as int), today)),
            groups@.len() > 0 ==> last_day == grouped(all.take(i as int), days@.take(i as int), today).last().0,
            groups_bytes(grouped(all.take(i as int), days@.take(i as int), today)) == scanned_bytes(all.take(i as int)),
            groups_count(grouped(all.take(i as int), days@.take(i as int), today)) == i,
        decreases n - i,
    {
        let ghost prev = grouped(all.take(i as int), days@.take(i as int), today);
        let scanned = remaining.pop().unwrap();
        proof {
            assert(scanned == all[i as int]);
            assert(all.take(i + 1).drop_last() =~= all.take(i as int));
            assert(days@.take(i + 1).take(i as int) =~= days@.take(i as int));
            lemma_scanned_bytes_prefix(all, i as int + 1);
            assert(all.take(i + 1) =~= all.take(i as int).push(all[i as int]));
        }
        let day = days[i];
        let entry = to_library_entry(scanned);
        if groups.len() > 0 && last_day == day {
            let mut g = groups.pop().unwrap();
            proof {
                assert(g.count == prev.last().2.len());
                assert(prev.drop_last().len() == prev.len() - 1);
                assert(groups_count(prev) == groups_count(prev.drop_last()) + prev.last().2.len());
                lemma_groups_count_nonneg(prev.drop_last());
                lemma_groups_bytes_nonneg(prev.drop_last());
                assert(bytes_of(prev.last().2.push(entry)) == bytes_of(prev.last().2) + entry.total_bytes) by {
                    assert(prev.last().2.push(entry).drop_last() =~= prev.last().2);
                }
            }
            g.count = g.count + 1;
            g.total_bytes = g.total_bytes + entry.total_bytes;
            g.entries.push(entry);
            groups.push(g);
            proof {
                let next = prev.update(prev.len() - 1, (day, prev.last().1, prev.last().2.push(entry)));
                assert(next.drop_last() =~= prev.drop_last());
                assert(groups_match(groups@, next));
            }
        } else {
            let label = day_label(day, today);
            let mut items: Vec<LibraryEntry> = Vec::new();
            let bytes = entry.total_bytes;
            items.push(entry);
            proof {
                assert(items@ =~= seq![entry]);
                assert(bytes_of(seq![entry]) == entry.total_bytes) by {
                    assert(seq![entry].drop_last() =~= Seq::<LibraryEntry>::empty());
                    assert(bytes_of(Seq::<LibraryEntry>::empty()) == 0);
                }
            }
            groups.push(LibraryGroup { label, count: 1, total_bytes: bytes, entries: items });
            proof {
                let next = prev.push((day, label_of(day, today), seq![entry]));
                assert(next.drop_last() =~= prev);
                assert(groups_match(groups@, next));
            }
            last_day = day;
        }
        i = i + 1;
    }
    proof {
        assert(all.take(n as int) =~= all);
        assert(days@.take(n as int) =~= days@);
    }
    groups
}

/// Whether each of `days` is within a day of its entry's saved time (see
/// [`near_day`]), for the times chrono represents with room to spare.
pub open spec fn days_near(entries: Seq<ScannedEntry>, days: Seq<i32>) -> bool {
    forall|k: int|
        0 <= k < entries.len() && (#[trigger] entries[k]).saved_at_unix_ms <= CHRONO_SAFE_MS ==> near_day(
            days[k] as int,
            entries[k].saved_at_unix_ms as int,
        )
}

/// Whether each entry of each group was saved within a day of the group's
/// day (see [`near_day`]), for the times chrono represents with room to
/// spare.
pub open spec fn groups_near(g: Seq<GroupModel>) -> bool {
    forall|i: int, j: int|
        0 <= i < g.len() && 0 <= j < g[i].2.len() && (#[trigger] g[i].2[j]).saved_at_unix_ms <= CHRONO_SAFE_MS
            ==> near_day(g[i].0 as int, g[i].2[j].saved_at_unix_ms as int)
}

/// Law: when every entry's day is within a day of its saved time, so is
/// the day of the group it lands in: a replay is never listed under a day
/// more than a day away from the date it was saved.
pub proof fn lemma_grouped_near(entries: Seq<ScannedEntry>, days: Seq<i32>, today: i32)
    requires
        days.len() == entries.len(),
        days_near(entries, days),
    ensures
        groups_near(grouped(entries, days, today)),
    decreases entries.len(),
{
    if entries.len() > 0 {
        let n = entries.len() - 1;
        let rest = entries.drop_last();
        let rd = days.take(n);
        assert forall|k: int| 0 <= k < rest.len() && (#[trigger] rest[k]).saved_at_unix_ms <= CHRONO_SAFE_MS implies near_day(
            rd[k] as int,
            rest[k].saved_at_unix_ms as int,
        ) by {
            assert(rest[k] == entries[k]);
        }
        lemma_grouped_near(rest, rd, today);
        let prev = grouped(rest, rd, today);
        let e = library_entry_of(entries.last());
        let d = days[n];
        assert(entries.last() == entries[n]);
        let g = grouped(entries, days, today);
        if prev.len() > 0 && prev.last().0 == d {
            assert forall|i: int, j: int|
                0 <= i < g.len() && 0 <= j < g[i].2.len() && (#[trigger] g[i].2[j]).saved_at_unix_ms <= CHRONO_SAFE_MS
                    implies near_day(g[i].0 as int, g[i].2[j].saved_at_unix_ms as int) by {
                if i < prev.len() - 1 {
                    assert(g[i] == prev[i]);
                } else if j < prev.last().2.len() {
                    assert(g[i].2[j] == prev[prev.len() - 1].2[j]);
                }
            }
        } else {
            assert forall|i: int, j: int|
                0 <= i < g.len() && 0 <= j < g[i].2.len() && (#[trigger] g[i].2[j]).saved_at_unix_ms <= CHRONO_SAFE_MS
                    implies near_day(g[i].0 as int, g[i].2[j].saved_at_unix_ms as int) by {
                if i < prev.len() {
                    assert(g[i] == prev[i]);
                }
            }
        }
    }
}

/// Groups newest-first `entries` by their local day, `today` being the
/// local date now (see [`group_by_days`]); the days come from the
/// machine's time zone, so the result is stated for the days chrono gave.
pub fn group_by_day(entries: Vec<ScannedEntry>, today: i32) -> (r: Vec<LibraryGroup>)
    requires
        entries@.len() <= u32::MAX,
        scanned_bytes(entries@) <= u64::MAX,
    ensures
        exists|days: Seq<i32>|
            #![trigger grouped(entries@, days, today)]
            days.len() == entries@.len() && days_near(entries@, days) && groups_match(r@, grouped(entries@, days, today)),
{
    let mut days: Vec<i32> = Vec::new();
    let mut i: usize = 0;
    while i < entries.len()
        invariant
            i <= entries@.len(),
            days@.len() == i,
            forall|k: int| 0 <= k < days@.len() ==> day_caption(#[trigger] days@[k]) is Some,
            forall|k: int|
                0 <= k < i && (#[trigger] entries@[k]).saved_at_unix_ms <= CHRONO_SAFE_MS ==> near_day(
                    days@[k] as int,
                    entries@[k].saved_at_unix_ms as int,
                ),
        decreases entries@.len() - i,
    {
        days.push(local_day(entries[i].saved_at_unix_ms));
        i = i + 1;
    }
    let ghost all = entries@;
    let r = group_by_days(entries, &days, today);
    assert(days@.len() == all.len() && days_near(all, days@) && groups_match(r@, grouped(all, days@, today)));
    r
}

/// Every entry of the groups, group after group.
pub open spec fn flatten(g: Seq<GroupModel>) -> Seq<LibraryEntry>
    decreases g.len(),
{
    if g.len() == 0 {
        Seq::empty()
    } else {
        flatten(g.drop_last()) + g.last().2
    }
}

/// Law: grouping by day keeps every entry once and in order, leaves no
/// group empty, never puts two neighbouring groups on the same day, and
/// labels each group for its day.
pub proof fn lemma_grouping_partitions_the_entries(entries: Seq<ScannedEntry>, days: Seq<i32>, today: i32)
    requires
        days.len() == entries.len(),
    ensures
        flatten(grouped(entries, days, today)) == entries.map_values(|e: ScannedEntry| library_entry_of(e)),
        forall|k: int|
            0 <= k < grouped(entries, days, today).len() ==> (#[trigger] grouped(entries, days, today)[k]).2.len() > 0,
        forall|k: int|
            0 <= k < grouped(entries, days, today).len() - 1 ==> (#[trigger] grouped(entries, days, today)[k]).0
                != grouped(entries, days, today)[k + 1].0,
        forall|k: int|
            0 <= k < grouped(entries, days, today).len() ==> (#[trigger] grouped(entries, days, today)[k]).1
                == label_of(grouped(entries, days, today)[k].0, today),
    decreases entries.len(),
{
    let g = grouped(entries, days, today);
    if entries.len() == 0 {
        assert(entries.map_values(|e: ScannedEntry| library_entry_of(e)) =~= Seq::<LibraryEntry>::empty());
    } else {
        let n = entries.len() - 1;
        lemma_grouping_partitions_the_entries(entries.drop_last(), days.take(n), today);
        let prev = grouped(entries.drop_last(), days.take(n), today);
        let e = library_entry_of(entries.last());
        assert(entries.map_values(|e: ScannedEntry| library_entry_of(e)) =~= entries.drop_last().map_values(
            |e: ScannedEntry| library_entry_of(e),
        ).push(e));
        if prev.len() > 0 && prev.last().0 == days[n] {
            assert(g.drop_last() =~= prev.drop_last());
            assert(flatten(prev) == flatten(prev.drop_last()) + prev.last().2);
            assert(flatten(g) =~= flatten(prev).push(e));
            assert forall|k: int| 0 <= k < g.len() - 1 implies (#[trigger] g[k]).0 != g[k + 1].0 by {
                assert(g[k].0 == prev[k].0 && g[k + 1].0 == prev[k + 1].0);
            }
        } else {
            assert(g.drop_last() =~= prev);
            assert(flatten(g) =~= flatten(prev).push(e));
        }
    }
}

proof fn lemma_scanned_bytes_prefix(s: Seq<ScannedEntry>, k: int)
    requires
        0 <= k <= s.len(),
    ensures
        scanned_bytes(s.take(k)) <= scanned_bytes(s),
        0 <= scanned_bytes(s.take(k)),
    decreases s.len(),
{
    if k < s.len() {
        lemma_scanned_bytes_prefix(s.drop_last(), k);
        assert(s.drop_last().take(k) =~= s.take(k));
    } else {
        assert(s.take(k) =~= s);
        if s.len() > 0 {
            lemma_scanned_bytes_prefix(s.drop_last(), k - 1);
            assert(s.drop_last().take(k - 1) =~= s.drop_last());
        }
    }
}

proof fn lemma_groups_count_nonneg(g: Seq<GroupModel>)
    ensures
        groups_count(g) >= 0,
    decreases g.len(),
{
    if g.len() > 0 {
        lemma_groups_count_nonneg(g.drop_last());
    }
}

proof fn lemma_groups_bytes_nonneg(g: Seq<GroupModel>)
    ensures
        groups_bytes(g) >= 0,
    decreases g.len(),
{
    if g.len() > 0 {
        lemma_groups_bytes_nonneg(g.drop_last());
        lemma_bytes_of_nonneg(g.last().2);
    }
}

proof fn lemma_bytes_of_nonneg(s: Seq<LibraryEntry>)
    ensures
        bytes_of(s) >= 0,
    decreases s.len(),
{
    if s.len() > 0 {
        lemma_bytes_of_nonneg(s.drop_last());
    }
}

} // verus!
