//! Committed metadata of a table together with the file changes of the
//! reading transaction.

use std::sync::Arc;

use vstd::prelude::*;

use crate::catalog::action_log::{
    ActionView, additions, combined_ops, delta_is, files_after, has_vacuum_action, overlay_ops,
    readers_see_files_after_truncation, readers_see_the_log_carried_out, staged_changes_come_last,
    uncommittable,
};
use crate::catalog::snapshot_delta::{
    DataContentType, DataFile, DeltaOp, SnapshotDelta, capped, creates_path, data_live, drops_data,
    has_live_data,
    live_data_files, live_delete_files, removed_base_paths, removes_base, removes_base_path,
    total_bytes, total_records, truncates,
};
use crate::catalog::table_files::{
    FilesView, changes_leave_the_files_they_say, counted_removals_are_those_made,
};
use crate::catalog::table_metadata::{Manifest, ManifestContentType, ManifestEntry, TableMetadata};
use crate::catalog::table_state::{TableMutation, TableView, recorded};
use crate::error::IcebergResult;
use crate::text::{lemma_texts_push, texts};

verus! {

/// Summary key of a snapshot's row count.
pub const TOTAL_RECORDS: &'static str = "total-records";

/// Summary key of a snapshot's byte count.
pub const TOTAL_FILES_SIZE: &'static str = "total-files-size";

/// Summary key of a snapshot's number of delete files.
pub const TOTAL_DELETE_FILES: &'static str = "total-delete-files";

/// A table as one statement of a transaction sees it.
pub struct LoadedTableMetadata {
    pub location: String,
    pub maintenance_due_at: Option<i64>,
    pub metadata: TableMetadata,
    pub delta: Option<Arc<SnapshotDelta>>,
}

/// Whether an entry is a live data file.
pub open spec fn live_entry(entry: ManifestEntry) -> bool {
    entry.alive && entry.content == DataContentType::Data
}

/// The live data files of some manifests, in order: those of the manifests
/// that list data.
pub open spec fn live_entries(manifests: Seq<Manifest>) -> Seq<ManifestEntry>
    decreases manifests.len(),
{
    if manifests.len() == 0 {
        Seq::empty()
    } else {
        live_entries(manifests.drop_last()) + manifest_live(manifests.last())
    }
}

/// The live data files that a manifest adds to those of a table.
pub open spec fn manifest_live(manifest: Manifest) -> Seq<ManifestEntry> {
    if manifest.content == ManifestContentType::Data {
        manifest.entries@.filter(|e: ManifestEntry| live_entry(e))
    } else {
        Seq::empty()
    }
}

/// Whether a manifest lists a live data file at `path`.
pub open spec fn lists_live_path(manifest: Manifest, path: Seq<char>) -> bool {
    manifest.content == ManifestContentType::Data && exists|k: int|
        0 <= k < manifest.entries@.len() && live_entry(#[trigger] manifest.entries@[k])
            && manifest.entries@[k].file_path@ == path
}

/// A row and a byte count after files were taken out of it: each listed path
/// takes out the first live file at that path. Counts do not go below zero.
pub open spec fn without_files(
    entries: Seq<ManifestEntry>,
    removed: Set<Seq<char>>,
    start: (u64, u64),
) -> (Set<Seq<char>>, (u64, u64))
    decreases entries.len(),
{
    if entries.len() == 0 {
        (removed, start)
    } else {
        let (left, (rows, bytes)) = without_files(entries.drop_last(), removed, start);
        let entry = entries.last();
        if left.contains(entry.file_path@) {
            (
                left.remove(entry.file_path@),
                (
                    if rows >= entry.record_count {
                        (rows - entry.record_count) as u64
                    } else {
                        0
                    },
                    if bytes >= entry.file_size_in_bytes {
                        (bytes - entry.file_size_in_bytes) as u64
                    } else {
                        0
                    },
                ),
            )
        } else {
            (left, (rows, bytes))
        }
    }
}

/// A number, or zero for none.
pub open spec fn or_zero(n: Option<u64>) -> nat {
    match n {
        Some(v) => v as nat,
        None => 0,
    }
}

/// The set of some texts.
pub open spec fn text_set(strings: Seq<Seq<char>>) -> Set<Seq<char>> {
    Set::new(|t: Seq<char>| strings.contains(t))
}

impl LoadedTableMetadata {
    /// Row and byte count that the planner is told, before removed files are
    /// taken out.
    pub open spec fn gross_stats(self) -> (u64, u64) {
        let base_rows = or_zero(self.metadata.summary_number(TOTAL_RECORDS@));
        let base_bytes = or_zero(self.metadata.summary_number(TOTAL_FILES_SIZE@));
        match self.delta {
            None => (base_rows as u64, base_bytes as u64),
            Some(delta) => {
                let added = live_data_files(delta@, delta@.len() as int);
                let deletes = live_delete_files(delta@, delta@.len() as int);
                let kept_rows = if truncates(delta@) {
                    0
                } else {
                    base_rows
                };
                let kept_bytes = if truncates(delta@) {
                    0
                } else {
                    base_bytes
                };
                (
                    capped(kept_rows + total_records(added)),
                    capped(kept_bytes + total_bytes(added) + total_bytes(deletes)),
                )
            },
        }
    }

    /// The paths of committed files that the transaction removed and that are
    /// still to be taken out of the counts.
    pub open spec fn removed_paths(self) -> Seq<Seq<char>> {
        match self.delta {
            Some(delta) => if truncates(delta@) {
                Seq::empty()
            } else {
                removed_base_paths(delta@, delta@.len() as int)
            },
            None => Seq::empty(),
        }
    }

    /// Row and byte count that the planner is told. Added data files add rows
    /// and bytes, added delete files add bytes, and removed files take out the
    /// rows and bytes of their committed entries.
    pub open spec fn planner_stats(self, manifests: Seq<Manifest>) -> (u64, u64) {
        if self.metadata.current_snapshot is None {
            self.gross_stats()
        } else {
            without_files(live_entries(manifests), text_set(self.removed_paths()), self.gross_stats()).1
        }
    }

    /// Whether the counts depend on the committed manifests.
    pub fn stats_need_manifests(&self) -> (r: bool)
        ensures
            r == (self.removed_paths().len() > 0 && self.metadata.current_snapshot is Some),
    {
        match &self.delta {
            Some(delta) => {
                let stats = delta.stats();
                assert(texts(stats.removed_data_paths@).len() == stats.removed_data_paths@.len());
                !stats.truncates_base && stats.removed_data_paths.len() > 0
                    && self.metadata.current_snapshot.is_some()
            },
            None => false,
        }
    }

    /// Row and byte count for the planner, given the committed manifests.
    pub fn relation_stats(&self, manifests: &Vec<Manifest>) -> (r: (u64, u64))
        ensures
            r == self.planner_stats(manifests@),
    {
        let mut rows: u64 = match self.metadata.summary_u64(TOTAL_RECORDS) {
            Some(n) => n,
            None => 0,
        };
        let mut bytes: u64 = match self.metadata.summary_u64(TOTAL_FILES_SIZE) {
            Some(n) => n,
            None => 0,
        };
        let delta = match &self.delta {
            Some(delta) => delta,
            None => {
                proof {
                    assert(text_set(self.removed_paths()) =~= Set::<Seq<char>>::empty());
                    lemma_nothing_removed(live_entries(manifests@), (rows, bytes));
                }
                return (rows, bytes);
            },
        };
        let stats = delta.stats();
        if stats.truncates_base {
            rows = 0;
            bytes = 0;
        }
        rows = rows.saturating_add(stats.added_data_records);
        bytes = bytes.saturating_add(stats.added_data_file_bytes).saturating_add(
            stats.added_delete_file_bytes,
        );
        assert((rows, bytes) == self.gross_stats());
        if !stats.truncates_base {
            self.subtract_removed_data_file_stats(
                manifests,
                &stats.removed_data_paths,
                &mut rows,
                &mut bytes,
            );
        } else {
            proof {
                assert(text_set(self.removed_paths()) =~= Set::<Seq<char>>::empty());
                lemma_nothing_removed(live_entries(manifests@), (rows, bytes));
            }
        }
        (rows, bytes)
    }

    /// Takes the entries of removed files out of the counts.
    fn subtract_removed_data_file_stats(
        &self,
        manifests: &Vec<Manifest>,
        removed_paths: &Vec<String>,
        rows: &mut u64,
        bytes: &mut u64,
    )
        ensures
            (*final(rows), *final(bytes)) == if self.metadata.current_snapshot is None {
                (*old(rows), *old(bytes))
            } else {
                without_files(
                    live_entries(manifests@),
                    text_set(texts(removed_paths@)),
                    (*old(rows), *old(bytes)),
                ).1
            },
    {
        let ghost start = (*rows, *bytes);
        let ghost removed = text_set(texts(removed_paths@));
        if self.metadata.current_snapshot.is_none() {
            return;
        }
        if removed_paths.is_empty() {
            proof {
                assert(removed =~= Set::<Seq<char>>::empty());
                lemma_nothing_removed(live_entries(manifests@), start);
            }
            return;
        }
        let mut remaining: Vec<String> = Vec::new();
        let mut i: usize = 0;
        assert(texts(remaining@) =~= Seq::<Seq<char>>::empty());
        while i < removed_paths.len()
            invariant
                i <= removed_paths@.len(),
                forall|a: int, b: int|
                    0 <= a < b < remaining@.len() ==> (#[trigger] remaining@[a])@ != (#[trigger] remaining@[b])@,
                forall|t: Seq<char>| #[trigger]
                    texts(remaining@).contains(t) <==> texts(removed_paths@.take(i as int)).contains(t),
            decreases removed_paths@.len() - i,
        {
            let ghost before = remaining@;
            proof {
                lemma_texts_push(removed_paths@.take(i as int), removed_paths@[i as int]);
                assert(removed_paths@.take(i + 1) =~= removed_paths@.take(i as int).push(
                    removed_paths@[i as int],
                ));
            }
            let present = find_text(&remaining, &removed_paths[i]);
            if present.is_none() {
                proof {
                    lemma_texts_push(remaining@, removed_paths@[i as int]);
                }
                remaining.push(removed_paths[i].clone());
            } else {
                assert(texts(before)[present->Some_0 as int] == removed_paths@[i as int]@);
                assert(texts(before).contains(removed_paths@[i as int]@));
            }
            i = i + 1;
        }
        proof {
            assert(removed_paths@.take(removed_paths@.len() as int) =~= removed_paths@);
            assert(text_set(texts(remaining@)) =~= removed);
        }
        let mut m: usize = 0;
        while m < manifests.len()
            invariant
                m <= manifests@.len(),
                forall|a: int, b: int|
                    0 <= a < b < remaining@.len() ==> (#[trigger] remaining@[a])@ != (#[trigger] remaining@[b])@,
                (text_set(texts(remaining@)), (*rows, *bytes)) == without_files(
                    live_entries(manifests@.take(m as int)),
                    removed,
                    start,
                ),
            decreases manifests@.len() - m,
        {
            proof {
                assert(manifests@.take(m + 1).drop_last() =~= manifests@.take(m as int));
            }
            let ghost earlier = live_entries(manifests@.take(m as int));
            if manifests[m].content == ManifestContentType::Data {
                self.subtract_manifest(
                    &manifests[m].entries,
                    &mut remaining,
                    rows,
                    bytes,
                    Ghost(earlier),
                    Ghost(removed),
                    Ghost(start),
                );
            } else {
                assert(earlier + manifest_live(manifests@[m as int]) =~= earlier);
            }
            m = m + 1;
        }
        assert(manifests@.take(manifests@.len() as int) =~= manifests@);
    }

    fn subtract_manifest(
        &self,
        entries: &Vec<ManifestEntry>,
        remaining: &mut Vec<String>,
        rows: &mut u64,
        bytes: &mut u64,
        Ghost(earlier): Ghost<Seq<ManifestEntry>>,
        Ghost(removed): Ghost<Set<Seq<char>>>,
        Ghost(start): Ghost<(u64, u64)>,
    )
        requires
            forall|a: int, b: int|
                0 <= a < b < old(remaining)@.len() ==> (#[trigger] old(remaining)@[a])@ != (
                #[trigger] old(remaining)@[b])@,
            (text_set(texts(old(remaining)@)), (*old(rows), *old(bytes))) == without_files(earlier, removed, start),
        ensures
            forall|a: int, b: int|
                0 <= a < b < final(remaining)@.len() ==> (#[trigger] final(remaining)@[a])@ != (
                #[trigger] final(remaining)@[b])@,
            (text_set(texts(final(remaining)@)), (*final(rows), *final(bytes))) == without_files(
                earlier + entries@.filter(|e: ManifestEntry| live_entry(e)),
                removed,
                start,
            ),
    {
        let ghost keep = |e: ManifestEntry| live_entry(e);
        let mut i: usize = 0;
        proof {
            reveal(Seq::filter);
            assert(earlier + entries@.take(0).filter(keep) =~= earlier);
        }
        while i < entries.len()
            invariant
                i <= entries@.len(),
                keep == (|e: ManifestEntry| live_entry(e)),
                forall|a: int, b: int|
                    0 <= a < b < remaining@.len() ==> (#[trigger] remaining@[a])@ != (#[trigger] remaining@[b])@,
                (text_set(texts(remaining@)), (*rows, *bytes)) == without_files(
                    earlier + entries@.take(i as int).filter(keep),
                    removed,
                    start,
                ),
            decreases entries@.len() - i,
        {
            let entry = &entries[i];
            let ghost seen = earlier + entries@.take(i as int).filter(keep);
            let ghost next = earlier + entries@.take(i + 1).filter(keep);
            proof {
                reveal(Seq::filter);
                assert(entries@.take(i + 1).drop_last() =~= entries@.take(i as int));
                if keep(entries@[i as int]) {
                    assert(next =~= seen.push(entries@[i as int]));
                    assert(next.drop_last() =~= seen);
                } else {
                    assert(next =~= seen);
                }
            }
            if entry.alive && entry.content == DataContentType::Data {
                let found = find_text(remaining, &entry.file_path);
                if let Some(k) = found {
                    let ghost before = texts(remaining@);
                    let _path = remaining.remove(k);
                    *rows = rows.saturating_sub(entry.record_count);
                    *bytes = bytes.saturating_sub(entry.file_size_in_bytes);
                    proof {
                        let after = texts(remaining@);
                        assert(before[k as int] == entry.file_path@);
                        assert(before.contains(entry.file_path@));
                        assert(after =~= before.remove(k as int));
                        assert forall|t: Seq<char>| #[trigger] after.contains(t) <==> (before.contains(t) && t
                            != entry.file_path@) by {
                            if after.contains(t) {
                                let a = choose|a: int| 0 <= a < after.len() && after[a] == t;
                                assert(before[if a < k { a } else { a + 1 }] == t);
                            }
                            if before.contains(t) && t != entry.file_path@ {
                                let a = choose|a: int| 0 <= a < before.len() && before[a] == t;
                                assert(after[if a < k { a } else { a - 1 }] == t);
                            }
                        }
                        assert(text_set(after) =~= text_set(before).remove(entry.file_path@));
                    }
                } else {
                    assert(!text_set(texts(remaining@)).contains(entry.file_path@)) by {
                        if texts(remaining@).contains(entry.file_path@) {
                            let a = choose|a: int|
                                0 <= a < texts(remaining@).len() && texts(remaining@)[a] == entry.file_path@;
                            assert(remaining@[a]@ == entry.file_path@);
                        }
                    }
                }
            }
            i = i + 1;
        }
        assert(entries@.take(entries@.len() as int) =~= entries@);
    }

    /// Whether the table may have row-level deletes. A `false` is certain; a
    /// missing or malformed count in the summary counts as deletes.
    pub fn may_have_row_deletes(&self) -> (r: bool)
        ensures
            r == (self.base_may_have_deletes() || self.adds_deletes()),
    {
        let mut replaced = false;
        let mut adds_deletes = false;
        if let Some(delta) = &self.delta {
            let stats = delta.stats();
            replaced = stats.truncates_base;
            adds_deletes = stats.added_delete_file_bytes != 0;
        }
        let base_may_have_deletes = if replaced || self.metadata.current_snapshot.is_none() {
            false
        } else {
            match self.metadata.summary_u64(TOTAL_DELETE_FILES) {
                Some(count) => count != 0,
                None => true,
            }
        };
        base_may_have_deletes || adds_deletes
    }

    /// Whether the committed files that the table keeps may have deletes.
    pub open spec fn base_may_have_deletes(self) -> bool {
        &&& !(self.delta matches Some(delta) && truncates(delta@))
        &&& self.metadata.current_snapshot is Some
        &&& self.metadata.summary_number(TOTAL_DELETE_FILES@) != Some(0u64)
    }

    /// Whether the transaction added delete files that hold anything.
    pub open spec fn adds_deletes(self) -> bool {
        self.delta matches Some(delta) && total_bytes(live_delete_files(delta@, delta@.len() as int)) != 0
    }

    /// Whether a data file is live for the transaction as far as its own
    /// changes decide it.
    pub open spec fn decided_liveness(self, path: Seq<char>) -> Option<bool> {
        if path.len() == 0 {
            Some(false)
        } else if self.delta matches Some(delta) && has_live_data(delta@, path) {
            Some(true)
        } else if self.delta matches Some(delta) && (removes_base_path(delta@, path) || truncates(delta@)) {
            Some(false)
        } else if self.metadata.current_snapshot is None {
            Some(false)
        } else {
            None
        }
    }

    /// Decides whether a data file is live for the transaction without the
    /// committed manifests, where its own changes allow it.
    pub fn live_data_file_without_manifests(&self, file_path: &str) -> (r: Option<bool>)
        ensures
            r == self.decided_liveness(file_path@),
    {
        if file_path.is_empty() {
            return Some(false);
        }
        if let Some(delta) = &self.delta {
            if delta.has_live_added_data_file_path(file_path) {
                return Some(true);
            }
            if delta.has_removed_data_path(file_path) {
                return Some(false);
            }
            if delta.truncates_base() {
                return Some(false);
            }
        }
        if self.metadata.current_snapshot.is_none() {
            return Some(false);
        }
        None
    }

    /// Whether a data file is live for the transaction, given the committed
    /// manifests.
    pub fn has_live_data_file_path(&self, manifests: &Vec<Manifest>, file_path: &str) -> (r: bool)
        ensures
            r == self.reads(manifests@, file_path@),
    {
        if let Some(decided) = self.live_data_file_without_manifests(file_path) {
            return decided;
        }
        let mut m: usize = 0;
        while m < manifests.len()
            invariant
                m <= manifests@.len(),
                self.decided_liveness(file_path@) is None,
                forall|k: int| 0 <= k < m ==> !lists_live_path(#[trigger] manifests@[k], file_path@),
            decreases manifests@.len() - m,
        {
            if manifest_lists_live_path(&manifests[m], file_path) {
                return true;
            }
            m = m + 1;
        }
        false
    }
}

/// Whether a manifest lists a live data file at a path. Manifests of deletes
/// list none.
pub fn manifest_lists_live_path(manifest: &Manifest, file_path: &str) -> (r: bool)
    ensures
        r == lists_live_path(*manifest, file_path@),
{
    if manifest.content != ManifestContentType::Data {
        return false;
    }
    let wanted = file_path.to_owned();
    let mut i: usize = 0;
    while i < manifest.entries.len()
        invariant
            i <= manifest.entries@.len(),
            wanted@ == file_path@,
            manifest.content == ManifestContentType::Data,
            forall|k: int| 0 <= k < i ==> !(live_entry(#[trigger] manifest.entries@[k])
                && manifest.entries@[k].file_path@ == file_path@),
        decreases manifest.entries@.len() - i,
    {
        let entry = &manifest.entries[i];
        if entry.alive && entry.content == DataContentType::Data && entry.file_path == wanted {
            assert(live_entry(manifest.entries@[i as int]));
            return true;
        }
        i = i + 1;
    }
    false
}

/// The place of a string among some strings.
fn find_text(strings: &Vec<String>, s: &String) -> (r: Option<usize>)
    ensures
        match r {
            Some(i) => i < strings@.len() && strings@[i as int]@ == s@,
            None => forall|k: int| 0 <= k < strings@.len() ==> (#[trigger] strings@[k])@ != s@,
        },
{
    let mut i: usize = 0;
    while i < strings.len()
        invariant
            i <= strings@.len(),
            forall|k: int| 0 <= k < i ==> (#[trigger] strings@[k])@ != s@,
        decreases strings@.len() - i,
    {
        if strings[i] == *s {
            return Some(i);
        }
        i = i + 1;
    }
    None
}

/// Where no path is removed the counts stay.
proof fn lemma_nothing_removed(entries: Seq<ManifestEntry>, start: (u64, u64))
    ensures
        without_files(entries, Set::<Seq<char>>::empty(), start) == (Set::<Seq<char>>::empty(), start),
    decreases entries.len(),
{
    if entries.len() > 0 {
        lemma_nothing_removed(entries.drop_last(), start);
    }
}

/// Removing files never raises a count.
pub proof fn removal_never_raises_counts(
    entries: Seq<ManifestEntry>,
    removed: Set<Seq<char>>,
    start: (u64, u64),
)
    ensures
        without_files(entries, removed, start).1.0 <= start.0,
        without_files(entries, removed, start).1.1 <= start.1,
    decreases entries.len(),
{
    if entries.len() > 0 {
        removal_never_raises_counts(entries.drop_last(), removed, start);
    }
}

/// A path is taken out of the counts at most once: once taken, further files
/// at that path leave the counts alone.
pub proof fn path_is_taken_out_once(
    entries: Seq<ManifestEntry>,
    removed: Set<Seq<char>>,
    start: (u64, u64),
    entry: ManifestEntry,
)
    requires
        exists|i: int| 0 <= i < entries.len() && #[trigger] entries[i].file_path@ == entry.file_path@,
    ensures
        without_files(entries.push(entry), removed, start) == without_files(entries, removed, start),
{
    lemma_taken_path_is_gone(entries, removed, start, entry.file_path@);
    assert(entries.push(entry).drop_last() =~= entries);
}

proof fn lemma_taken_path_is_gone(
    entries: Seq<ManifestEntry>,
    removed: Set<Seq<char>>,
    start: (u64, u64),
    path: Seq<char>,
)
    requires
        exists|i: int| 0 <= i < entries.len() && #[trigger] entries[i].file_path@ == path,
    ensures
        !without_files(entries, removed, start).0.contains(path),
    decreases entries.len(),
{
    if entries.last().file_path@ != path {
        let i = choose|i: int| 0 <= i < entries.len() && #[trigger] entries[i].file_path@ == path;
        assert(entries.drop_last()[i].file_path@ == path);
        lemma_taken_path_is_gone(entries.drop_last(), removed, start, path);
    }
}

/// Whether a table is neither dropped nor under maintenance.
pub open spec fn in_use(table: TableView) -> bool {
    forall|i: int| 0 <= i < table.actions.len() ==> !uncommittable(#[trigger] table.actions[i])
}

/// A transaction reads the data files that it just added.
pub proof fn own_additions_are_read(
    before: TableView,
    nest_level: int,
    files: Vec<DataFile>,
    after: TableView,
    r: IcebergResult<()>,
    loaded: LoadedTableMetadata,
    i: int,
)
    requires
        in_use(before),
        recorded(before, nest_level, TableMutation::DataFiles(files), after, r),
        r is Ok,
        delta_is(loaded.delta, overlay_ops(after.actions)),
        0 <= i < files@.len(),
        files@[i].file_path@.len() > 0,
    ensures
        loaded.decided_liveness(files@[i].file_path@) == Some(true),
{
    let ops = additions(files@);
    let earlier = combined_ops(before.actions, before.actions.len() as int);
    staged_changes_come_last(before.actions, ops);
    assert(!has_vacuum_action(before.actions)) by {
        if has_vacuum_action(before.actions) {
            let k = choose|k: int|
                0 <= k < before.actions.len() && #[trigger] before.actions[k] is Vacuum;
            assert(uncommittable(before.actions[k]));
        }
    }
    let whole = earlier + ops;
    let at = earlier.len() + i;
    assert(whole[at] == DeltaOp::AddDataFile(files@[i]));
    assert forall|j: int| at < j < whole.len() implies !#[trigger] drops_data(
        whole[j],
        files@[i].file_path@,
    ) by {
        assert(whole[j] == DeltaOp::AddDataFile(files@[j - earlier.len()]));
    }
    assert(data_live(whole, at));
    assert(has_live_data(whole, files@[i].file_path@));
}

/// A transaction no longer reads a data file that it just removed. Where it had
/// added the file itself, the committed table alone says what is at the path.
pub proof fn own_removals_are_read(
    before: TableView,
    nest_level: int,
    path: String,
    after: TableView,
    r: IcebergResult<()>,
    loaded: LoadedTableMetadata,
)
    requires
        in_use(before),
        recorded(before, nest_level, TableMutation::RemoveData(path), after, r),
        r is Ok,
        delta_is(loaded.delta, overlay_ops(after.actions)),
    ensures
        loaded.decided_liveness(path@) != Some(true),
        !has_live_data(combined_ops(before.actions, before.actions.len() as int), path@)
            ==> loaded.decided_liveness(path@) == Some(false),
{
    let ops = seq![DeltaOp::RemoveDataFile(path)];
    let earlier = combined_ops(before.actions, before.actions.len() as int);
    staged_changes_come_last(before.actions, ops);
    assert(!has_vacuum_action(before.actions)) by {
        if has_vacuum_action(before.actions) {
            let k = choose|k: int|
                0 <= k < before.actions.len() && #[trigger] before.actions[k] is Vacuum;
            assert(uncommittable(before.actions[k]));
        }
    }
    let whole = earlier + ops;
    let last = earlier.len() as int;
    assert(whole[last] == DeltaOp::RemoveDataFile(path));
    assert(drops_data(whole[last], path@));
    assert(!has_live_data(whole, path@)) by {
        if has_live_data(whole, path@) {
            let k = choose|k: int| #[trigger]
                data_live(whole, k) && whole[k]->AddDataFile_0.file_path@ == path@;
            assert(k < last);
        }
    }
    if !has_live_data(earlier, path@) {
        assert(whole.take(last) =~= earlier);
        assert(removes_base(whole, last));
    }
}

/// A transaction reads no data file of a table that it just truncated.
pub proof fn own_truncations_are_read(
    before: TableView,
    nest_level: int,
    location: String,
    after: TableView,
    r: IcebergResult<()>,
    loaded: LoadedTableMetadata,
    path: Seq<char>,
)
    requires
        in_use(before),
        recorded(before, nest_level, TableMutation::Truncate(location), after, r),
        r is Ok,
        delta_is(loaded.delta, overlay_ops(after.actions)),
    ensures
        loaded.decided_liveness(path) == Some(false),
{
    let earlier = combined_ops(before.actions, before.actions.len() as int);
    let n = before.actions.len() as int;
    assert(!has_vacuum_action(before.actions)) by {
        if has_vacuum_action(before.actions) {
            let k = choose|k: int|
                0 <= k < before.actions.len() && #[trigger] before.actions[k] is Vacuum;
            assert(uncommittable(before.actions[k]));
        }
    }
    assert(after.actions[n] is Truncate);
    assert forall|i: int| 0 <= i < after.actions.len() implies !uncommittable(
        #[trigger] after.actions[i],
    ) by {
        if i < n {
            assert(after.actions[i] == before.actions[i]);
        }
    }
    readers_see_files_after_truncation(after.actions, n, path);
    assert(combined_ops(after.actions.skip(n + 1), 0).len() == 0);
}

impl LoadedTableMetadata {
    /// Whether a data file is live for the transaction, given the committed
    /// manifests.
    pub open spec fn reads(self, manifests: Seq<Manifest>, path: Seq<char>) -> bool {
        match self.decided_liveness(path) {
            Some(decided) => decided,
            None => exists|m: int| 0 <= m < manifests.len() && lists_live_path(#[trigger] manifests[m], path),
        }
    }
}

/// Whether some files are those of a committed table: its data files are the
/// live files that the manifests of its snapshot list.
pub open spec fn is_committed(files: FilesView, metadata: TableMetadata, manifests: Seq<Manifest>) -> bool {
    forall|path: Seq<char>| #[trigger]
        files.data.contains_key(path) <==> metadata.current_snapshot is Some && exists|m: int|
            0 <= m < manifests.len() && lists_live_path(#[trigger] manifests[m], path)
}

/// A transaction reads a data file exactly when the file is one of the table's
/// after the transaction's changes were carried out on the committed table, one
/// after the other. (It adds no file at a path that the table has, and a path
/// is not empty.)
pub proof fn readers_see_the_files_of_the_table(
    files: FilesView,
    actions: Seq<ActionView>,
    loaded: LoadedTableMetadata,
    manifests: Seq<Manifest>,
    path: Seq<char>,
)
    requires
        is_committed(files, loaded.metadata, manifests),
        forall|i: int| 0 <= i < actions.len() ==> !uncommittable(#[trigger] actions[i]),
        delta_is(loaded.delta, overlay_ops(actions)),
        path.len() > 0,
        files.data.contains_key(path) ==> !creates_path(
            combined_ops(actions, actions.len() as int),
            path,
        ),
    ensures
        loaded.reads(manifests, path) <==> files_after(
            files,
            actions,
            actions.len() as int,
        ).data.contains_key(path),
{
    let ops = combined_ops(actions, actions.len() as int);
    readers_see_the_log_carried_out(files, actions, actions.len() as int);
    changes_leave_the_files_they_say(files, ops, path);
    if loaded.delta is None {
        assert(ops =~= Seq::<DeltaOp>::empty());
    }
}

/// The rows of some entries.
pub open spec fn entry_records(entries: Seq<ManifestEntry>) -> nat
    decreases entries.len(),
{
    if entries.len() == 0 {
        0
    } else {
        entry_records(entries.drop_last()) + entries.last().record_count as nat
    }
}

/// The bytes of some entries.
pub open spec fn entry_bytes(entries: Seq<ManifestEntry>) -> nat
    decreases entries.len(),
{
    if entries.len() == 0 {
        0
    } else {
        entry_bytes(entries.drop_last()) + entries.last().file_size_in_bytes as nat
    }
}

/// Whether no two entries are of the same file.
pub open spec fn distinct_files(entries: Seq<ManifestEntry>) -> bool {
    forall|i: int, j: int|
        0 <= i < j < entries.len() ==> (#[trigger] entries[i]).file_path@ != (
        #[trigger] entries[j]).file_path@
}

proof fn lemma_without_files(
    entries: Seq<ManifestEntry>,
    removed: Set<Seq<char>>,
    start: (u64, u64),
)
    requires
        distinct_files(entries),
        entry_records(entries) <= start.0,
        entry_bytes(entries) <= start.1,
    ensures
        ({
            let gone = |e: ManifestEntry| removed.contains(e.file_path@);
            let left = without_files(entries, removed, start);
            &&& left.1.0 + entry_records(entries.filter(gone)) == start.0
            &&& left.1.1 + entry_bytes(entries.filter(gone)) == start.1
            &&& forall|path: Seq<char>| #[trigger]
                left.0.contains(path) <==> removed.contains(path) && !(exists|i: int|
                    0 <= i < entries.len() && (#[trigger] entries[i]).file_path@ == path)
            &&& entry_records(entries.filter(gone)) <= entry_records(entries)
            &&& entry_bytes(entries.filter(gone)) <= entry_bytes(entries)
        }),
    decreases entries.len(),
{
    reveal(Seq::filter);
    let gone = |e: ManifestEntry| removed.contains(e.file_path@);
    if entries.len() > 0 {
        let fewer = entries.drop_last();
        let last = entries.last();
        assert forall|i: int, j: int| 0 <= i < j < fewer.len() implies (#[trigger] fewer[i]).file_path@ != (
        #[trigger] fewer[j]).file_path@ by {
            assert(entries[i].file_path@ != entries[j].file_path@);
        }
        lemma_without_files(fewer, removed, start);
        let before = without_files(fewer, removed, start).0;
        assert(before.contains(last.file_path@) <==> removed.contains(last.file_path@)) by {
            if exists|i: int| 0 <= i < fewer.len() && (#[trigger] fewer[i]).file_path@ == last.file_path@ {
                let i = choose|i: int|
                    0 <= i < fewer.len() && (#[trigger] fewer[i]).file_path@ == last.file_path@;
                assert(entries[i].file_path@ != entries[entries.len() - 1].file_path@);
            }
        }
        if gone(last) {
            assert(entries.filter(gone).drop_last() =~= fewer.filter(gone));
        }
        let left = without_files(entries, removed, start);
        assert forall|path: Seq<char>| #[trigger] left.0.contains(path) <==> removed.contains(path) && !(exists|
            i: int,
        |
            0 <= i < entries.len() && (#[trigger] entries[i]).file_path@ == path) by {
            assert(before.contains(path) <==> removed.contains(path) && !(exists|i: int|
                0 <= i < fewer.len() && (#[trigger] fewer[i]).file_path@ == path));
            if exists|i: int| 0 <= i < fewer.len() && (#[trigger] fewer[i]).file_path@ == path {
                let i = choose|i: int| 0 <= i < fewer.len() && (#[trigger] fewer[i]).file_path@ == path;
                assert(entries[i].file_path@ == path);
            }
            if exists|i: int| 0 <= i < entries.len() && (#[trigger] entries[i]).file_path@ == path {
                let i = choose|i: int| 0 <= i < entries.len() && (#[trigger] entries[i]).file_path@ == path;
                if i < fewer.len() {
                    assert(fewer[i].file_path@ == path);
                }
            }
            if last.file_path@ == path {
                assert(entries[entries.len() - 1].file_path@ == path);
            }
        }
    }
}

proof fn lemma_split_records(
    entries: Seq<ManifestEntry>,
    gone: spec_fn(ManifestEntry) -> bool,
    kept: spec_fn(ManifestEntry) -> bool,
)
    requires
        forall|e: ManifestEntry| #[trigger] gone(e) != kept(e),
    ensures
        entry_records(entries.filter(gone)) + entry_records(entries.filter(kept)) == entry_records(entries),
    decreases entries.len(),
{
    reveal(Seq::filter);
    if entries.len() > 0 {
        let fewer = entries.drop_last();
        lemma_split_records(fewer, gone, kept);
        assert(gone(entries.last()) != kept(entries.last()));
        if gone(entries.last()) {
            assert(entries.filter(gone).drop_last() =~= fewer.filter(gone));
        } else {
            assert(entries.filter(kept).drop_last() =~= fewer.filter(kept));
        }
    }
}

/// The planner is told the rows that the transaction reads: those of the
/// committed files that it did not remove, and those of the files that it
/// added. Of bytes it is told what the table had, without the removed files,
/// and with the added data and delete files. (The snapshot's summary counts the
/// rows of its live files, each file is listed once, and the counts fit.)
pub proof fn planners_are_told_what_is_read(
    loaded: LoadedTableMetadata,
    manifests: Seq<Manifest>,
    ops: Seq<DeltaOp>,
)
    requires
        loaded.metadata.current_snapshot is Some,
        loaded.delta is Some,
        loaded.delta->Some_0@ == ops,
        !truncates(ops),
        distinct_files(live_entries(manifests)),
        or_zero(loaded.metadata.summary_number(TOTAL_RECORDS@)) == entry_records(live_entries(manifests)),
        or_zero(loaded.metadata.summary_number(TOTAL_FILES_SIZE@)) >= entry_bytes(live_entries(manifests)),
        or_zero(loaded.metadata.summary_number(TOTAL_RECORDS@)) + total_records(
            live_data_files(ops, ops.len() as int),
        ) <= u64::MAX,
        or_zero(loaded.metadata.summary_number(TOTAL_FILES_SIZE@)) + total_bytes(
            live_data_files(ops, ops.len() as int),
        ) + total_bytes(live_delete_files(ops, ops.len() as int)) <= u64::MAX,
    ensures
        loaded.planner_stats(manifests).0 == entry_records(
            live_entries(manifests).filter(
                |e: ManifestEntry| !removes_base_path(ops, e.file_path@),
            ),
        ) + total_records(live_data_files(ops, ops.len() as int)),
        loaded.planner_stats(manifests).1 + entry_bytes(
            live_entries(manifests).filter(|e: ManifestEntry| removes_base_path(ops, e.file_path@)),
        ) == or_zero(loaded.metadata.summary_number(TOTAL_FILES_SIZE@)) + total_bytes(
            live_data_files(ops, ops.len() as int),
        ) + total_bytes(live_delete_files(ops, ops.len() as int)),
{
    let entries = live_entries(manifests);
    let removed = text_set(loaded.removed_paths());
    let gone = |e: ManifestEntry| removed.contains(e.file_path@);
    let dropped = |e: ManifestEntry| removes_base_path(ops, e.file_path@);
    let kept = |e: ManifestEntry| !removes_base_path(ops, e.file_path@);
    lemma_without_files(entries, removed, loaded.gross_stats());
    assert forall|e: ManifestEntry| #[trigger] gone(e) == dropped(e) by {
        let path = e.file_path@;
        counted_removals_are_those_made(ops, ops.len() as int, path);
        if removes_base_path(ops, path) {
            let i = choose|i: int| #[trigger] removes_base(ops, i) && ops[i]->RemoveDataFile_0@ == path;
            assert(i < ops.len());
        }
    }
    lemma_same_filter(entries, gone, dropped);
    lemma_split_records(entries, dropped, kept);
}

proof fn lemma_same_filter<A>(s: Seq<A>, a: spec_fn(A) -> bool, b: spec_fn(A) -> bool)
    requires
        forall|x: A| #[trigger] a(x) == b(x),
    ensures
        s.filter(a) == s.filter(b),
    decreases s.len(),
{
    reveal(Seq::filter);
    if s.len() > 0 {
        lemma_same_filter(s.drop_last(), a, b);
        assert(a(s.last()) == b(s.last()));
    }
}

/// After a truncation the planner is told the rows of the files that the
/// transaction added since, and their bytes with those of its delete files.
pub proof fn planners_forget_truncated_files(
    loaded: LoadedTableMetadata,
    manifests: Seq<Manifest>,
    ops: Seq<DeltaOp>,
)
    requires
        loaded.delta is Some,
        loaded.delta->Some_0@ == ops,
        truncates(ops),
    ensures
        loaded.planner_stats(manifests) == (
            capped(total_records(live_data_files(ops, ops.len() as int))),
            capped(
                total_bytes(live_data_files(ops, ops.len() as int)) + total_bytes(
                    live_delete_files(ops, ops.len() as int),
                ),
            ),
        ),
{
    assert(text_set(loaded.removed_paths()) =~= Set::<Seq<char>>::empty());
    lemma_nothing_removed(live_entries(manifests), loaded.gross_stats());
}

/// A table that the transaction did not change is as its snapshot's summary
/// says; without a snapshot it is empty.
pub proof fn planners_are_told_the_summary(loaded: LoadedTableMetadata, manifests: Seq<Manifest>)
    requires
        loaded.delta is None,
    ensures
        loaded.planner_stats(manifests).0 == or_zero(loaded.metadata.summary_number("total-records"@)),
        loaded.planner_stats(manifests).1 == or_zero(loaded.metadata.summary_number("total-files-size"@)),
        loaded.metadata.current_snapshot is None ==> loaded.planner_stats(manifests) == (0u64, 0u64),
{
    assert(text_set(loaded.removed_paths()) =~= Set::<Seq<char>>::empty());
    lemma_nothing_removed(live_entries(manifests), loaded.gross_stats());
}

proof fn lemma_bytes_of_member(files: Seq<DataFile>, k: int)
    requires
        0 <= k < files.len(),
    ensures
        files[k].file_size_in_bytes <= total_bytes(files),
    decreases files.len(),
{
    if k < files.len() - 1 {
        lemma_bytes_of_member(files.drop_last(), k);
        assert(files.drop_last()[k] == files[k]);
    }
}

/// Where a table is said to have no row-level deletes it has none: neither did
/// the committed table keep one, nor did the transaction add a delete file that
/// holds anything.
pub proof fn absence_of_deletes_is_certain(
    loaded: LoadedTableMetadata,
    ops: Seq<DeltaOp>,
    k: int,
)
    requires
        !(loaded.base_may_have_deletes() || loaded.adds_deletes()),
        loaded.delta is Some,
        loaded.delta->Some_0@ == ops,
        0 <= k < live_delete_files(ops, ops.len() as int).len(),
    ensures
        live_delete_files(ops, ops.len() as int)[k].file_size_in_bytes == 0,
        truncates(ops) || loaded.metadata.current_snapshot is None || loaded.metadata.summary_number(
            "total-delete-files"@,
        ) == Some(0u64),
{
    lemma_bytes_of_member(live_delete_files(ops, ops.len() as int), k);
}

/// A table whose summary does not say that it has no delete files may have
/// some, unless it was truncated.
pub proof fn unknown_deletes_count_as_deletes(loaded: LoadedTableMetadata)
    requires
        loaded.metadata.current_snapshot is Some,
        loaded.metadata.summary_number("total-delete-files"@) != Some(0u64),
        !(loaded.delta matches Some(delta) && truncates(delta@)),
    ensures
        loaded.base_may_have_deletes(),
{
}

/// The live files of some manifests, as they are counted, are those that the
/// manifests list for readers.
pub proof fn counted_entries_are_listed(manifests: Seq<Manifest>, path: Seq<char>)
    ensures
        (exists|k: int|
            0 <= k < live_entries(manifests).len() && (#[trigger] live_entries(manifests)[k]).file_path@
                == path) <==> (exists|m: int|
            0 <= m < manifests.len() && lists_live_path(#[trigger] manifests[m], path)),
        forall|k: int|
            0 <= k < live_entries(manifests).len() ==> live_entry(#[trigger] live_entries(manifests)[k]),
    decreases manifests.len(),
{
    let all = live_entries(manifests);
    if manifests.len() > 0 {
        let fewer = manifests.drop_last();
        let earlier = live_entries(fewer);
        let last = manifests.last();
        let own = manifest_live(last);
        let keep = |e: ManifestEntry| live_entry(e);
        counted_entries_are_listed(fewer, path);
        assert forall|k: int| 0 <= k < own.len() implies live_entry(#[trigger] own[k]) && last.entries@.contains(
            own[k],
        ) && last.content == ManifestContentType::Data by {
            last.entries@.lemma_filter_pred(keep, k);
            assert(own.contains(own[k]));
            last.entries@.lemma_filter_contains_rev(keep, own[k]);
        }
        assert forall|k: int| 0 <= k < all.len() implies live_entry(#[trigger] all[k]) by {
            if k < earlier.len() {
                assert(all[k] == earlier[k]);
            } else {
                assert(all[k] == own[k - earlier.len()]);
            }
        }
        if exists|k: int| 0 <= k < all.len() && (#[trigger] all[k]).file_path@ == path {
            let k = choose|k: int| 0 <= k < all.len() && (#[trigger] all[k]).file_path@ == path;
            if k < earlier.len() {
                assert(earlier[k].file_path@ == path);
                let m = choose|m: int| 0 <= m < fewer.len() && lists_live_path(#[trigger] fewer[m], path);
                assert(lists_live_path(manifests[m], path));
            } else {
                let entry = own[k - earlier.len()];
                assert(last.entries@.contains(entry));
                let e = choose|e: int| 0 <= e < last.entries@.len() && last.entries@[e] == entry;
                assert(live_entry(last.entries@[e]));
                assert(lists_live_path(manifests[manifests.len() - 1], path));
            }
        }
        if exists|m: int| 0 <= m < manifests.len() && lists_live_path(#[trigger] manifests[m], path) {
            let m = choose|m: int| 0 <= m < manifests.len() && lists_live_path(#[trigger] manifests[m], path);
            if m < fewer.len() {
                assert(lists_live_path(fewer[m], path));
                let k = choose|k: int| 0 <= k < earlier.len() && (#[trigger] earlier[k]).file_path@ == path;
                assert(all[k].file_path@ == path);
            } else {
                let e = choose|e: int|
                    0 <= e < last.entries@.len() && live_entry(#[trigger] last.entries@[e])
                        && last.entries@[e].file_path@ == path;
                last.entries@.lemma_filter_contains(keep, e);
                let k = choose|k: int| 0 <= k < own.len() && own[k] == last.entries@[e];
                assert(all[earlier.len() + k].file_path@ == path);
            }
        }
    }
}

} // verus!
