//! The live files of a table, and what changes do to them one after the other.

use vstd::prelude::*;

use crate::catalog::snapshot_delta::{
    DataFile, DeltaOp, cancels_path, created_path, creates_path, data_live, delete_live, drops_data,
    drops_delete, has_live_data, has_live_delete, live_data_files, live_delete_files,
    removed_base_paths, removes_base, removes_base_path, truncates,
};

verus! {

/// The data files and the delete files of a table, by path.
pub struct FilesView {
    pub data: Map<Seq<char>, DataFile>,
    pub deletes: Map<Seq<char>, DataFile>,
}

impl FilesView {
    /// A table without files.
    pub open spec fn none() -> FilesView {
        FilesView { data: Map::empty(), deletes: Map::empty() }
    }

    /// These files after one change: files are added and removed under their
    /// paths, and a truncation leaves none.
    pub open spec fn after_op(self, op: DeltaOp) -> FilesView {
        match op {
            DeltaOp::AddDataFile(file) => FilesView {
                data: self.data.insert(file.file_path@, file),
                ..self
            },
            DeltaOp::AddPositionDeleteFile { file, .. } => FilesView {
                deletes: self.deletes.insert(file.file_path@, file),
                ..self
            },
            DeltaOp::RemoveDeleteFile(identity) => FilesView {
                deletes: self.deletes.remove(identity.file_path@),
                ..self
            },
            DeltaOp::RemoveDataFile(path) => FilesView { data: self.data.remove(path@), ..self },
            DeltaOp::TruncateTable => FilesView::none(),
        }
    }

    /// These files after some changes, one after the other.
    pub open spec fn after_ops(self, ops: Seq<DeltaOp>) -> FilesView
        decreases ops.len(),
    {
        if ops.len() == 0 {
            self
        } else {
            self.after_ops(ops.drop_last()).after_op(ops.last())
        }
    }
}

/// Changes in two parts are the first part and then the second.
pub proof fn parts_follow_each_other(files: FilesView, a: Seq<DeltaOp>, b: Seq<DeltaOp>)
    ensures
        files.after_ops(a + b) == files.after_ops(a).after_ops(b),
    decreases b.len(),
{
    if b.len() == 0 {
        assert(a + b =~= a);
    } else {
        parts_follow_each_other(files, a, b.drop_last());
        assert((a + b).drop_last() =~= a + b.drop_last());
    }
}

/// After a truncation it does not matter what was there before.
pub proof fn truncation_leaves_nothing(
    files: FilesView,
    earlier: Seq<DeltaOp>,
    later: Seq<DeltaOp>,
)
    ensures
        files.after_ops(earlier.push(DeltaOp::TruncateTable) + later) == FilesView::none().after_ops(
            later,
        ),
{
    let first = earlier.push(DeltaOp::TruncateTable);
    assert(first.drop_last() =~= earlier);
    parts_follow_each_other(files, first, later);
}

proof fn lemma_live_data_next(ops: Seq<DeltaOp>, path: Seq<char>)
    requires
        ops.len() > 0,
    ensures
        has_live_data(ops, path) <==> (ops.last() is AddDataFile && ops.last()->AddDataFile_0.file_path@
            == path) || (has_live_data(ops.drop_last(), path) && !drops_data(ops.last(), path)),
{
    let earlier = ops.drop_last();
    let n = ops.len() - 1;
    if has_live_data(ops, path) {
        let i = choose|i: int| #[trigger] data_live(ops, i) && ops[i]->AddDataFile_0.file_path@ == path;
        if i < n {
            assert(earlier[i] == ops[i]);
            assert(!drops_data(ops[n], path));
            assert forall|j: int| i < j < earlier.len() implies !#[trigger] drops_data(earlier[j], path) by {
                assert(!drops_data(ops[j], path));
            }
            assert(data_live(earlier, i));
        }
    }
    if ops.last() is AddDataFile && ops.last()->AddDataFile_0.file_path@ == path {
        assert(data_live(ops, n));
    }
    if has_live_data(earlier, path) && !drops_data(ops.last(), path) {
        let i = choose|i: int|
            #[trigger] data_live(earlier, i) && earlier[i]->AddDataFile_0.file_path@ == path;
        assert(ops[i] == earlier[i]);
        assert forall|j: int| i < j < ops.len() implies !#[trigger] drops_data(ops[j], path) by {
            if j < n {
                assert(!drops_data(earlier[j], path));
            }
        }
        assert(data_live(ops, i));
    }
}

proof fn lemma_live_delete_next(ops: Seq<DeltaOp>, path: Seq<char>)
    requires
        ops.len() > 0,
    ensures
        has_live_delete(ops, path) <==> (ops.last() is AddPositionDeleteFile && ops.last()->file.file_path@
            == path) || (has_live_delete(ops.drop_last(), path) && !drops_delete(ops.last(), path)),
{
    let earlier = ops.drop_last();
    let n = ops.len() - 1;
    if has_live_delete(ops, path) {
        let i = choose|i: int| #[trigger] delete_live(ops, i) && ops[i]->file.file_path@ == path;
        if i < n {
            assert(earlier[i] == ops[i]);
            assert(!drops_delete(ops[n], path));
            assert forall|j: int| i < j < earlier.len() implies !#[trigger] drops_delete(
                earlier[j],
                path,
            ) by {
                assert(!drops_delete(ops[j], path));
            }
            assert(delete_live(earlier, i));
        }
    }
    if ops.last() is AddPositionDeleteFile && ops.last()->file.file_path@ == path {
        assert(delete_live(ops, n));
    }
    if has_live_delete(earlier, path) && !drops_delete(ops.last(), path) {
        let i = choose|i: int| #[trigger] delete_live(earlier, i) && earlier[i]->file.file_path@ == path;
        assert(ops[i] == earlier[i]);
        assert forall|j: int| i < j < ops.len() implies !#[trigger] drops_delete(ops[j], path) by {
            if j < n {
                assert(!drops_delete(earlier[j], path));
            }
        }
        assert(delete_live(ops, i));
    }
}

proof fn lemma_removes_next(ops: Seq<DeltaOp>, path: Seq<char>)
    requires
        ops.len() > 0,
    ensures
        removes_base_path(ops, path) <==> (ops.last() is RemoveDataFile && ops.last()->RemoveDataFile_0@
            == path && !has_live_data(ops.drop_last(), path)) || (removes_base_path(ops.drop_last(), path)
            && !(ops.last() is TruncateTable)),
        truncates(ops) <==> truncates(ops.drop_last()) || ops.last() is TruncateTable,
{
    let earlier = ops.drop_last();
    let n = ops.len() - 1;
    assert(ops.take(n) =~= earlier);
    if removes_base_path(ops, path) {
        let i = choose|i: int| #[trigger] removes_base(ops, i) && ops[i]->RemoveDataFile_0@ == path;
        if i < n {
            assert(earlier[i] == ops[i]);
            assert(earlier.take(i) =~= ops.take(i));
            assert forall|j: int| i < j < earlier.len() implies !(#[trigger] earlier[j] is TruncateTable) by {
                assert(earlier[j] == ops[j]);
            }
            assert(removes_base(earlier, i));
            assert(!(ops[n] is TruncateTable));
        }
    }
    if ops.last() is RemoveDataFile && ops.last()->RemoveDataFile_0@ == path && !has_live_data(
        earlier,
        path,
    ) {
        assert(removes_base(ops, n));
    }
    if removes_base_path(earlier, path) && !(ops.last() is TruncateTable) {
        let i = choose|i: int|
            #[trigger] removes_base(earlier, i) && earlier[i]->RemoveDataFile_0@ == path;
        assert(ops[i] == earlier[i]);
        assert(earlier.take(i) =~= ops.take(i));
        assert forall|j: int| i < j < ops.len() implies !(#[trigger] ops[j] is TruncateTable) by {
            if j < n {
                assert(earlier[j] == ops[j]);
            }
        }
        assert(removes_base(ops, i));
    }
    if truncates(earlier) {
        let i = choose|i: int| 0 <= i < earlier.len() && #[trigger] earlier[i] is TruncateTable;
        assert(ops[i] is TruncateTable);
    }
    if truncates(ops) {
        let i = choose|i: int| 0 <= i < ops.len() && #[trigger] ops[i] is TruncateTable;
        if i < n {
            assert(earlier[i] is TruncateTable);
        }
    }
    if ops.last() is TruncateTable {
        assert(ops[n] is TruncateTable);
    }
}

proof fn lemma_creates_next(ops: Seq<DeltaOp>, path: Seq<char>)
    requires
        ops.len() > 0,
        !creates_path(ops, path),
    ensures
        !creates_path(ops.drop_last(), path),
        created_path(ops.last()) != Some(path),
{
    let earlier = ops.drop_last();
    if creates_path(earlier, path) {
        let i = choose|i: int| 0 <= i < earlier.len() && created_path(#[trigger] earlier[i]) == Some(path);
        assert(created_path(ops[i]) == Some(path));
    }
    assert(ops[ops.len() - 1] == ops.last());
}

/// What a list of changes says of a data file is what carrying out the changes
/// does: the file is live afterwards where the list leaves it added, or where
/// the table had it and the list neither removes it nor truncates. (A change
/// adds no file at a path that the table has.)
pub proof fn changes_leave_the_files_they_say(files: FilesView, ops: Seq<DeltaOp>, path: Seq<char>)
    requires
        files.data.contains_key(path) ==> !creates_path(ops, path),
    ensures
        files.after_ops(ops).data.contains_key(path) <==> has_live_data(ops, path) || (
        files.data.contains_key(path) && !truncates(ops) && !removes_base_path(ops, path)),
        files.data.contains_key(path) && files.after_ops(ops).data.contains_key(path)
            ==> files.after_ops(ops).data[path] == files.data[path],
    decreases ops.len(),
{
    if ops.len() > 0 {
        if files.data.contains_key(path) {
            lemma_creates_next(ops, path);
        }
        changes_leave_the_files_they_say(files, ops.drop_last(), path);
        lemma_live_data_next(ops, path);
        lemma_removes_next(ops, path);
        if files.data.contains_key(path) {
            lemma_uncreated_is_not_live(ops.drop_last(), path);
        }
    }
}

proof fn lemma_uncreated_is_not_live(ops: Seq<DeltaOp>, path: Seq<char>)
    requires
        !creates_path(ops, path),
    ensures
        !has_live_data(ops, path),
        !has_live_delete(ops, path),
{
    if has_live_data(ops, path) {
        let i = choose|i: int| #[trigger] data_live(ops, i) && ops[i]->AddDataFile_0.file_path@ == path;
        assert(created_path(ops[i]) == Some(path));
    }
    if has_live_delete(ops, path) {
        let i = choose|i: int| #[trigger] delete_live(ops, i) && ops[i]->file.file_path@ == path;
        assert(created_path(ops[i]) == Some(path));
    }
}

/// What a list of changes says of the files that it adds is what carrying out
/// the changes on an empty table leaves there.
pub proof fn changes_add_the_files_they_say(ops: Seq<DeltaOp>, path: Seq<char>)
    ensures
        FilesView::none().after_ops(ops).data.contains_key(path) <==> has_live_data(ops, path),
        FilesView::none().after_ops(ops).deletes.contains_key(path) <==> has_live_delete(ops, path),
    decreases ops.len(),
{
    if ops.len() > 0 {
        changes_add_the_files_they_say(ops.drop_last(), path);
        lemma_live_data_next(ops, path);
        lemma_live_delete_next(ops, path);
    }
}

/// Changes that create no file at a path leave none there, unless there was one.
pub proof fn uncreated_files_do_not_appear(files: FilesView, ops: Seq<DeltaOp>, path: Seq<char>)
    requires
        !creates_path(ops, path),
    ensures
        files.after_ops(ops).data.contains_key(path) ==> files.data.contains_key(path),
        files.after_ops(ops).deletes.contains_key(path) ==> files.deletes.contains_key(path),
    decreases ops.len(),
{
    if ops.len() > 0 {
        lemma_creates_next(ops, path);
        uncreated_files_do_not_appear(files, ops.drop_last(), path);
    }
}

/// A file that some changes create and cancel is not live after them, where
/// the table did not have it before.
pub proof fn canceled_creations_are_gone(files: FilesView, ops: Seq<DeltaOp>, path: Seq<char>)
    requires
        cancels_path(ops, path),
        !files.data.contains_key(path),
        !files.deletes.contains_key(path),
    ensures
        !files.after_ops(ops).data.contains_key(path),
        !files.after_ops(ops).deletes.contains_key(path),
{
    lemma_absent_is_as_empty(files, ops, path);
    changes_add_the_files_they_say(ops, path);
}

proof fn lemma_absent_is_as_empty(files: FilesView, ops: Seq<DeltaOp>, path: Seq<char>)
    requires
        !files.data.contains_key(path),
        !files.deletes.contains_key(path),
    ensures
        files.after_ops(ops).data.contains_key(path) == FilesView::none().after_ops(
            ops,
        ).data.contains_key(path),
        files.after_ops(ops).deletes.contains_key(path) == FilesView::none().after_ops(
            ops,
        ).deletes.contains_key(path),
    decreases ops.len(),
{
    if ops.len() > 0 {
        lemma_absent_is_as_empty(files, ops.drop_last(), path);
    }
}

impl FilesView {
    /// These files with data files added under their paths, in order.
    pub open spec fn with_data_files(self, added: Seq<DataFile>) -> FilesView
        decreases added.len(),
    {
        if added.len() == 0 {
            self
        } else {
            let earlier = self.with_data_files(added.drop_last());
            FilesView { data: earlier.data.insert(added.last().file_path@, added.last()), ..earlier }
        }
    }
}

/// Every added data file is among the files afterwards, the last of several at
/// a path; files at other paths stay.
pub proof fn added_data_files_are_there(files: FilesView, added: Seq<DataFile>, path: Seq<char>)
    ensures
        files.with_data_files(added).deletes == files.deletes,
        (exists|i: int| 0 <= i < added.len() && (#[trigger] added[i]).file_path@ == path)
            ==> files.with_data_files(added).data.contains_key(path),
        !(exists|i: int| 0 <= i < added.len() && (#[trigger] added[i]).file_path@ == path) ==> (
        files.with_data_files(added).data.contains_key(path) <==> files.data.contains_key(path)),
    decreases added.len(),
{
    if added.len() > 0 {
        let fewer = added.drop_last();
        added_data_files_are_there(files, fewer, path);
        if exists|i: int| 0 <= i < added.len() && (#[trigger] added[i]).file_path@ == path {
            let i = choose|i: int| 0 <= i < added.len() && (#[trigger] added[i]).file_path@ == path;
            if i < fewer.len() {
                assert(fewer[i].file_path@ == path);
            }
        }
        if exists|i: int| 0 <= i < fewer.len() && (#[trigger] fewer[i]).file_path@ == path {
            let i = choose|i: int| 0 <= i < fewer.len() && (#[trigger] fewer[i]).file_path@ == path;
            assert(added[i].file_path@ == path);
        }
        assert(added[added.len() - 1] == added.last());
    }
}

/// The added files that a list of changes leaves, as the list counts them, are
/// those that carrying out the changes on an empty table leaves there.
pub proof fn counted_files_are_those_left(ops: Seq<DeltaOp>, n: int, path: Seq<char>)
    requires
        0 <= n <= ops.len(),
    ensures
        (exists|k: int|
            0 <= k < live_data_files(ops, n).len() && (#[trigger] live_data_files(ops, n)[k]).file_path@
                == path) <==> (exists|i: int|
            i < n && #[trigger] data_live(ops, i) && ops[i]->AddDataFile_0.file_path@ == path),
        n == ops.len() ==> ((exists|k: int|
            0 <= k < live_data_files(ops, n).len() && (#[trigger] live_data_files(ops, n)[k]).file_path@
                == path) <==> FilesView::none().after_ops(ops).data.contains_key(path)),
        (exists|k: int|
            0 <= k < live_delete_files(ops, n).len() && (#[trigger] live_delete_files(ops, n)[k]).file_path@
                == path) <==> (exists|i: int|
            i < n && #[trigger] delete_live(ops, i) && ops[i]->file.file_path@ == path),
        n == ops.len() ==> ((exists|k: int|
            0 <= k < live_delete_files(ops, n).len() && (#[trigger] live_delete_files(ops, n)[k]).file_path@
                == path) <==> FilesView::none().after_ops(ops).deletes.contains_key(path)),
    decreases n,
{
    changes_add_the_files_they_say(ops, path);
    let files = live_data_files(ops, n);
    let deletes = live_delete_files(ops, n);
    if n > 0 {
        counted_files_are_those_left(ops, n - 1, path);
        let earlier = live_data_files(ops, n - 1);
        if exists|k: int| 0 <= k < earlier.len() && (#[trigger] earlier[k]).file_path@ == path {
            let k = choose|k: int| 0 <= k < earlier.len() && (#[trigger] earlier[k]).file_path@ == path;
            assert(files[k] == earlier[k]);
        }
        if exists|k: int| 0 <= k < files.len() && (#[trigger] files[k]).file_path@ == path {
            let k = choose|k: int| 0 <= k < files.len() && (#[trigger] files[k]).file_path@ == path;
            if k < earlier.len() {
                assert(earlier[k] == files[k]);
            } else {
                assert(data_live(ops, n - 1));
            }
        }
        if exists|i: int| i < n && #[trigger] data_live(ops, i) && ops[i]->AddDataFile_0.file_path@ == path {
            let i = choose|i: int|
                i < n && #[trigger] data_live(ops, i) && ops[i]->AddDataFile_0.file_path@ == path;
            if i == n - 1 {
                assert(files[files.len() - 1].file_path@ == path);
            }
        }
        let fewer = live_delete_files(ops, n - 1);
        if exists|k: int| 0 <= k < fewer.len() && (#[trigger] fewer[k]).file_path@ == path {
            let k = choose|k: int| 0 <= k < fewer.len() && (#[trigger] fewer[k]).file_path@ == path;
            assert(deletes[k] == fewer[k]);
        }
        if exists|k: int| 0 <= k < deletes.len() && (#[trigger] deletes[k]).file_path@ == path {
            let k = choose|k: int| 0 <= k < deletes.len() && (#[trigger] deletes[k]).file_path@ == path;
            if k < fewer.len() {
                assert(fewer[k] == deletes[k]);
            } else {
                assert(delete_live(ops, n - 1));
            }
        }
        if exists|i: int| i < n && #[trigger] delete_live(ops, i) && ops[i]->file.file_path@ == path {
            let i = choose|i: int| i < n && #[trigger] delete_live(ops, i) && ops[i]->file.file_path@ == path;
            if i == n - 1 {
                assert(deletes[deletes.len() - 1].file_path@ == path);
            }
        }
    }
}

/// The paths that a list of changes removes from the table, as it counts them,
/// are those that it removes.
pub proof fn counted_removals_are_those_made(ops: Seq<DeltaOp>, n: int, path: Seq<char>)
    requires
        0 <= n <= ops.len(),
    ensures
        removed_base_paths(ops, n).contains(path) <==> (exists|i: int|
            i < n && #[trigger] removes_base(ops, i) && ops[i]->RemoveDataFile_0@ == path),
    decreases n,
{
    if n > 0 {
        counted_removals_are_those_made(ops, n - 1, path);
        let earlier = removed_base_paths(ops, n - 1);
        let now = removed_base_paths(ops, n);
        if earlier.contains(path) {
            let k = choose|k: int| 0 <= k < earlier.len() && earlier[k] == path;
            assert(now[k] == path);
        }
        if now.contains(path) {
            let k = choose|k: int| 0 <= k < now.len() && now[k] == path;
            if k < earlier.len() {
                assert(earlier[k] == path);
            } else {
                assert(removes_base(ops, n - 1));
            }
        }
        if removes_base(ops, n - 1) && ops[n - 1]->RemoveDataFile_0@ == path {
            assert(now[now.len() - 1] == path);
        }
    }
}

} // verus!
