//! File changes that a transaction staged for one table.
//!
//! A delta is an ordered list of operations; what it adds, removes or cancels
//! follows from that order.

use std::sync::Arc;

use vstd::prelude::*;

use crate::error::{IcebergError, IcebergErrorKind, IcebergLiteError, IcebergResult};
use crate::text::{lemma_texts_push, texts};

verus! {

/// What the rows of a file are.
#[derive(Debug, Clone, Copy, PartialEq, Eq, Structural)]
pub enum DataContentType {
    Data,
    PositionDeletes,
    EqualityDeletes,
}

/// A data file or delete file of a table.
#[derive(Debug, PartialEq, Eq)]
pub struct DataFile {
    pub content: DataContentType,
    pub file_path: String,
    pub record_count: u64,
    pub file_size_in_bytes: u64,
}

impl Clone for DataFile {
    fn clone(&self) -> (r: Self)
        ensures
            r == *self,
    {
        DataFile {
            content: self.content,
            file_path: self.file_path.clone(),
            record_count: self.record_count,
            file_size_in_bytes: self.file_size_in_bytes,
        }
    }
}

/// Names a delete file of a table.
#[derive(Debug, PartialEq, Eq)]
pub struct DeleteFileIdentity {
    pub file_path: String,
}

impl Clone for DeleteFileIdentity {
    fn clone(&self) -> (r: Self)
        ensures
            r == *self,
    {
        DeleteFileIdentity { file_path: self.file_path.clone() }
    }
}

/// One staged change of a table's files.
#[derive(Debug, PartialEq, Eq)]
pub enum DeltaOp {
    AddDataFile(DataFile),
    AddPositionDeleteFile { file: DataFile, referenced_data_files: Arc<Vec<String>> },
    RemoveDeleteFile(DeleteFileIdentity),
    RemoveDataFile(String),
    TruncateTable,
}

impl Clone for DeltaOp {
    fn clone(&self) -> (r: Self)
        ensures
            r == *self,
    {
        match self {
            DeltaOp::AddDataFile(file) => DeltaOp::AddDataFile(file.clone()),
            DeltaOp::AddPositionDeleteFile { file, referenced_data_files } => DeltaOp::AddPositionDeleteFile {
                file: file.clone(),
                referenced_data_files: Arc::clone(referenced_data_files),
            },
            DeltaOp::RemoveDeleteFile(identity) => DeltaOp::RemoveDeleteFile(identity.clone()),
            DeltaOp::RemoveDataFile(path) => DeltaOp::RemoveDataFile(path.clone()),
            DeltaOp::TruncateTable => DeltaOp::TruncateTable,
        }
    }
}

/// Whether the list truncates the table.
pub open spec fn truncates(ops: Seq<DeltaOp>) -> bool {
    exists|i: int| 0 <= i < ops.len() && #[trigger] ops[i] is TruncateTable
}

/// Whether an operation removes the data file at `path` from the table.
pub open spec fn drops_data(op: DeltaOp, path: Seq<char>) -> bool {
    match op {
        DeltaOp::TruncateTable => true,
        DeltaOp::RemoveDataFile(p) => p@ == path,
        _ => false,
    }
}

/// Whether an operation removes the delete file at `path` from the table.
pub open spec fn drops_delete(op: DeltaOp, path: Seq<char>) -> bool {
    match op {
        DeltaOp::TruncateTable => true,
        DeltaOp::RemoveDeleteFile(identity) => identity.file_path@ == path,
        _ => false,
    }
}

/// Whether operation `i` adds a data file that no later operation removes.
pub open spec fn data_live(ops: Seq<DeltaOp>, i: int) -> bool {
    &&& 0 <= i < ops.len()
    &&& ops[i] is AddDataFile
    &&& forall|j: int| i < j < ops.len() ==> !#[trigger] drops_data(ops[j], ops[i]->AddDataFile_0.file_path@)
}

/// Whether operation `i` adds a delete file that no later operation removes.
pub open spec fn delete_live(ops: Seq<DeltaOp>, i: int) -> bool {
    &&& 0 <= i < ops.len()
    &&& ops[i] is AddPositionDeleteFile
    &&& forall|j: int| i < j < ops.len() ==> !#[trigger] drops_delete(ops[j], ops[i]->file.file_path@)
}

/// Whether the list leaves an added data file at `path`.
pub open spec fn has_live_data(ops: Seq<DeltaOp>, path: Seq<char>) -> bool {
    exists|i: int| #[trigger] data_live(ops, i) && ops[i]->AddDataFile_0.file_path@ == path
}

/// Whether the list leaves an added delete file at `path`.
pub open spec fn has_live_delete(ops: Seq<DeltaOp>, path: Seq<char>) -> bool {
    exists|i: int| #[trigger] delete_live(ops, i) && ops[i]->file.file_path@ == path
}

/// Whether operation `i` removes a file that the table had before the list.
pub open spec fn removes_base(ops: Seq<DeltaOp>, i: int) -> bool {
    &&& 0 <= i < ops.len()
    &&& ops[i] is RemoveDataFile
    &&& !has_live_data(ops.take(i), ops[i]->RemoveDataFile_0@)
    &&& forall|j: int| i < j < ops.len() ==> !(#[trigger] ops[j] is TruncateTable)
}

/// Whether the list removes the table's earlier file at `path`.
pub open spec fn removes_base_path(ops: Seq<DeltaOp>, path: Seq<char>) -> bool {
    exists|i: int| #[trigger] removes_base(ops, i) && ops[i]->RemoveDataFile_0@ == path
}

/// The added data files that remain, among the first `n` operations.
pub open spec fn live_data_files(ops: Seq<DeltaOp>, n: int) -> Seq<DataFile>
    decreases n,
{
    if n <= 0 {
        Seq::empty()
    } else if data_live(ops, n - 1) {
        live_data_files(ops, n - 1).push(ops[n - 1]->AddDataFile_0)
    } else {
        live_data_files(ops, n - 1)
    }
}

/// The added delete files that remain, among the first `n` operations.
pub open spec fn live_delete_files(ops: Seq<DeltaOp>, n: int) -> Seq<DataFile>
    decreases n,
{
    if n <= 0 {
        Seq::empty()
    } else if delete_live(ops, n - 1) {
        live_delete_files(ops, n - 1).push(ops[n - 1]->file)
    } else {
        live_delete_files(ops, n - 1)
    }
}

/// The paths of removed earlier files, among the first `n` operations.
pub open spec fn removed_base_paths(ops: Seq<DeltaOp>, n: int) -> Seq<Seq<char>>
    decreases n,
{
    if n <= 0 {
        Seq::empty()
    } else if removes_base(ops, n - 1) {
        removed_base_paths(ops, n - 1).push(ops[n - 1]->RemoveDataFile_0@)
    } else {
        removed_base_paths(ops, n - 1)
    }
}

/// The path of the file that an operation adds.
pub open spec fn created_path(op: DeltaOp) -> Option<Seq<char>> {
    match op {
        DeltaOp::AddDataFile(file) => Some(file.file_path@),
        DeltaOp::AddPositionDeleteFile { file, .. } => Some(file.file_path@),
        _ => None,
    }
}

/// Whether some operation adds a file at `path`.
pub open spec fn creates_path(ops: Seq<DeltaOp>, path: Seq<char>) -> bool {
    exists|i: int| 0 <= i < ops.len() && created_path(#[trigger] ops[i]) == Some(path)
}

/// Whether the list adds a file at `path` and leaves none there.
pub open spec fn cancels_path(ops: Seq<DeltaOp>, path: Seq<char>) -> bool {
    creates_path(ops, path) && !has_live_data(ops, path) && !has_live_delete(ops, path)
}

/// The sum of record counts.
pub open spec fn total_records(files: Seq<DataFile>) -> nat
    decreases files.len(),
{
    if files.len() == 0 {
        0
    } else {
        total_records(files.drop_last()) + files.last().record_count as nat
    }
}

/// The sum of file sizes.
pub open spec fn total_bytes(files: Seq<DataFile>) -> nat
    decreases files.len(),
{
    if files.len() == 0 {
        0
    } else {
        total_bytes(files.drop_last()) + files.last().file_size_in_bytes as nat
    }
}

/// A number held to the range of a 64-bit counter.
pub open spec fn capped(n: nat) -> u64 {
    if n > u64::MAX {
        u64::MAX
    } else {
        n as u64
    }
}

/// Totals of a delta.
#[derive(Debug)]
pub struct SnapshotDeltaStats {
    pub truncates_base: bool,
    pub added_data_records: u64,
    pub added_data_file_bytes: u64,
    pub added_delete_file_bytes: u64,
    pub removed_data_paths: Vec<String>,
}

/// A place in a delta to which it can be cut back.
#[derive(Debug, Clone, Copy, PartialEq, Eq, Structural)]
pub struct SnapshotDeltaMarker {
    pub len: usize,
}

/// An ordered list of file changes.
#[derive(Debug, PartialEq, Eq)]
pub struct SnapshotDelta {
    ops: Vec<DeltaOp>,
}

impl View for SnapshotDelta {
    type V = Seq<DeltaOp>;

    closed spec fn view(&self) -> Seq<DeltaOp> {
        self.ops@
    }
}

impl Clone for SnapshotDelta {
    fn clone(&self) -> (r: Self)
        ensures
            r@ == self@,
    {
        let mut ops: Vec<DeltaOp> = Vec::new();
        let mut i: usize = 0;
        while i < self.ops.len()
            invariant
                i <= self.ops@.len(),
                ops@ == self.ops@.take(i as int),
            decreases self.ops@.len() - i,
        {
            ops.push(self.ops[i].clone());
            assert(self.ops@.take(i + 1) =~= self.ops@.take(i as int).push(self.ops@[i as int]));
            i = i + 1;
        }
        assert(self.ops@.take(self.ops@.len() as int) =~= self.ops@);
        SnapshotDelta { ops }
    }
}

fn wrong_content(message: &str) -> (r: IcebergError)
    ensures
        r matches IcebergError::IcebergLiteError(e) && e.kind == IcebergErrorKind::DataInvalid
            && e.message@ == message@,
{
    IcebergError::IcebergLiteError(
        IcebergLiteError { kind: IcebergErrorKind::DataInvalid, message: message.to_owned() },
    )
}

/// Whether a file may be added as data.
pub open spec fn addable_data(file: DataFile) -> bool {
    file.content == DataContentType::Data
}

/// Whether a file may be added as position deletes.
pub open spec fn addable_delete(file: DataFile) -> bool {
    file.content == DataContentType::PositionDeletes
}

/// The refusal of a file whose rows are not data.
pub open spec fn refused_as_data(r: IcebergResult<()>) -> bool {
    r matches Err(IcebergError::IcebergLiteError(e)) && e.kind == IcebergErrorKind::DataInvalid
        && e.message@ == "only data content can be added as a data file"@
}

/// The refusal of a file whose rows are not position deletes.
pub open spec fn refused_as_delete(r: IcebergResult<()>) -> bool {
    r matches Err(IcebergError::IcebergLiteError(e)) && e.kind == IcebergErrorKind::DataInvalid
        && e.message@ == "only position deletes can be added as a position delete file"@
}

impl SnapshotDelta {
    /// A delta without changes.
    pub fn new() -> (r: Self)
        ensures
            r@ == Seq::<DeltaOp>::empty(),
    {
        SnapshotDelta { ops: Vec::new() }
    }

    /// Whether the delta holds no change.
    pub fn is_empty(&self) -> (r: bool)
        ensures
            r == (self@.len() == 0),
    {
        self.ops.is_empty()
    }

    /// The present end of the delta.
    pub fn mark(&self) -> (r: SnapshotDeltaMarker)
        ensures
            r.len == self@.len(),
    {
        SnapshotDeltaMarker { len: self.ops.len() }
    }

    /// Drops every change after a mark.
    pub fn truncate(&mut self, marker: SnapshotDeltaMarker)
        ensures
            marker.len <= old(self)@.len() ==> final(self)@ == old(self)@.take(marker.len as int),
            marker.len > old(self)@.len() ==> final(self)@ == old(self)@,
    {
        self.ops.truncate(marker.len);
        assert(marker.len <= old(self)@.len() ==> self.ops@ =~= old(self)@.take(marker.len as int));
    }

    /// Stages a data file.
    pub fn add_data_file(&mut self, file: DataFile) -> (r: IcebergResult<()>)
        ensures
            addable_data(file) ==> r == Ok::<(), IcebergError>(()) && final(self)@ == old(self)@.push(
                DeltaOp::AddDataFile(file),
            ),
            !addable_data(file) ==> refused_as_data(r) && final(self)@ == old(self)@,
    {
        if file.content != DataContentType::Data {
            return Err(wrong_content("only data content can be added as a data file"));
        }
        self.ops.push(DeltaOp::AddDataFile(file));
        Ok(())
    }

    /// Stages a position delete file and the data files that it refers to.
    pub fn add_position_delete_file(
        &mut self,
        file: DataFile,
        referenced_data_files: Vec<String>,
    ) -> (r: IcebergResult<()>)
        ensures
            addable_delete(file) ==> r == Ok::<(), IcebergError>(()) && final(self)@ == old(self)@.push(
                (DeltaOp::AddPositionDeleteFile {
                    file,
                    referenced_data_files: Arc::new(referenced_data_files),
                }),
            ),
            !addable_delete(file) ==> refused_as_delete(r) && final(self)@ == old(self)@,
    {
        if file.content != DataContentType::PositionDeletes {
            return Err(
                wrong_content("only position deletes can be added as a position delete file"),
            );
        }
        self.ops.push(
            DeltaOp::AddPositionDeleteFile {
                file,
                referenced_data_files: Arc::new(referenced_data_files),
            },
        );
        Ok(())
    }

    /// Stages the removal of a delete file.
    pub fn remove_delete_file(&mut self, identity: DeleteFileIdentity)
        ensures
            final(self)@ == old(self)@.push(DeltaOp::RemoveDeleteFile(identity)),
    {
        self.ops.push(DeltaOp::RemoveDeleteFile(identity));
    }

    /// Stages the removal of a data file.
    pub fn remove_data_file(&mut self, file_path: String)
        ensures
            final(self)@ == old(self)@.push(DeltaOp::RemoveDataFile(file_path)),
    {
        self.ops.push(DeltaOp::RemoveDataFile(file_path));
    }

    /// Stages the removal of every file.
    pub fn truncate_table(&mut self)
        ensures
            final(self)@ == old(self)@.push(DeltaOp::TruncateTable),
    {
        self.ops.push(DeltaOp::TruncateTable);
    }

    /// Stages the changes of another delta after those of this one.
    pub fn append_delta(&mut self, other: &SnapshotDelta)
        ensures
            final(self)@ == old(self)@ + other@,
    {
        let mut i: usize = 0;
        assert(self.ops@ =~= old(self).ops@ + other.ops@.take(0));
        while i < other.ops.len()
            invariant
                i <= other.ops@.len(),
                self.ops@ == old(self).ops@ + other.ops@.take(i as int),
            decreases other.ops@.len() - i,
        {
            self.ops.push(other.ops[i].clone());
            assert(self.ops@ =~= old(self).ops@ + other.ops@.take(i + 1));
            i = i + 1;
        }
        assert(other.ops@.take(other.ops@.len() as int) =~= other.ops@);
    }

    /// Whether the delta truncates the table.
    pub fn truncates_base(&self) -> (r: bool)
        ensures
            r == truncates(self@),
    {
        let mut i: usize = 0;
        while i < self.ops.len()
            invariant
                i <= self.ops@.len(),
                forall|k: int| 0 <= k < i ==> !(#[trigger] self.ops@[k] is TruncateTable),
            decreases self.ops@.len() - i,
        {
            if let DeltaOp::TruncateTable = &self.ops[i] {
                assert(self@[i as int] is TruncateTable);
                return true;
            }
            i = i + 1;
        }
        false
    }

    fn data_live_at(&self, i: usize, end: usize) -> (r: bool)
        requires
            i < end <= self@.len(),
        ensures
            r == data_live(self@.take(end as int), i as int),
    {
        let ghost ops = self@.take(end as int);
        match &self.ops[i] {
            DeltaOp::AddDataFile(file) => {
                let mut j: usize = i + 1;
                while j < end
                    invariant
                        i < j <= end <= self.ops@.len(),
                        ops == self.ops@.take(end as int),
                        ops[i as int] == DeltaOp::AddDataFile(*file),
                        forall|k: int| i < k < j ==> !#[trigger] drops_data(ops[k], file.file_path@),
                    decreases end - j,
                {
                    assert(ops[j as int] == self.ops@[j as int]);
                    match &self.ops[j] {
                        DeltaOp::TruncateTable => {
                            assert(drops_data(ops[j as int], file.file_path@));
                            return false;
                        },
                        DeltaOp::RemoveDataFile(path) => {
                            if *path == file.file_path {
                                assert(drops_data(ops[j as int], file.file_path@));
                                return false;
                            }
                        },
                        _ => {},
                    }
                    j = j + 1;
                }
                true
            },
            _ => false,
        }
    }

    fn delete_live_at(&self, i: usize) -> (r: bool)
        requires
            i < self@.len(),
        ensures
            r == delete_live(self@, i as int),
    {
        match &self.ops[i] {
            DeltaOp::AddPositionDeleteFile { file, .. } => {
                let end: usize = self.ops.len();
                let mut j: usize = i + 1;
                while j < end
                    invariant
                        i < j <= end,
                        end == self.ops@.len(),
                        self.ops@[i as int] is AddPositionDeleteFile,
                        self.ops@[i as int]->file == *file,
                        forall|k: int| i < k < j ==> !#[trigger] drops_delete(self.ops@[k], file.file_path@),
                    decreases self.ops@.len() - j,
                {
                    match &self.ops[j] {
                        DeltaOp::TruncateTable => {
                            assert(drops_delete(self.ops@[j as int], file.file_path@));
                            return false;
                        },
                        DeltaOp::RemoveDeleteFile(identity) => {
                            if identity.file_path == file.file_path {
                                assert(drops_delete(self.ops@[j as int], file.file_path@));
                                return false;
                            }
                        },
                        _ => {},
                    }
                    j = j + 1;
                }
                true
            },
            _ => false,
        }
    }

    fn live_data_before(&self, file_path: &String, end: usize) -> (r: bool)
        requires
            end <= self@.len(),
        ensures
            r == has_live_data(self@.take(end as int), file_path@),
    {
        let ghost ops = self@.take(end as int);
        let mut i: usize = 0;
        while i < end
            invariant
                i <= end <= self.ops@.len(),
                ops == self@.take(end as int),
                forall|k: int| 0 <= k < i ==> !(#[trigger] data_live(ops, k) && ops[k]->AddDataFile_0.file_path@
                    == file_path@),
            decreases end - i,
        {
            assert(ops[i as int] == self.ops@[i as int]);
            match &self.ops[i] {
                DeltaOp::AddDataFile(file) => {
                    if file.file_path == *file_path && self.data_live_at(i, end) {
                        assert(data_live(ops, i as int));
                        return true;
                    }
                },
                _ => {},
            }
            i = i + 1;
        }
        false
    }

    /// Whether the delta leaves an added data file at `file_path`.
    pub fn has_live_added_data_file_path(&self, file_path: &str) -> (r: bool)
        ensures
            r == has_live_data(self@, file_path@),
    {
        assert(self@.take(self@.len() as int) =~= self@);
        let path = file_path.to_owned();
        self.live_data_before(&path, self.ops.len())
    }

    fn live_delete_path(&self, file_path: &String) -> (r: bool)
        ensures
            r == has_live_delete(self@, file_path@),
    {
        let mut i: usize = 0;
        while i < self.ops.len()
            invariant
                i <= self.ops@.len(),
                forall|k: int| 0 <= k < i ==> !(#[trigger] delete_live(self@, k) && self@[k]->file.file_path@
                    == file_path@),
            decreases self.ops@.len() - i,
        {
            match &self.ops[i] {
                DeltaOp::AddPositionDeleteFile { file, .. } => {
                    if file.file_path == *file_path && self.delete_live_at(i) {
                        assert(delete_live(self@, i as int));
                        return true;
                    }
                },
                _ => {},
            }
            i = i + 1;
        }
        false
    }

    fn removes_base_at(&self, i: usize) -> (r: bool)
        requires
            i < self@.len(),
        ensures
            r == removes_base(self@, i as int),
    {
        match &self.ops[i] {
            DeltaOp::RemoveDataFile(path) => {
                if self.live_data_before(path, i) {
                    return false;
                }
                let end: usize = self.ops.len();
                let mut j: usize = i + 1;
                while j < end
                    invariant
                        i < j <= end,
                        end == self.ops@.len(),
                        forall|k: int| i < k < j ==> !(#[trigger] self.ops@[k] is TruncateTable),
                    decreases self.ops@.len() - j,
                {
                    if let DeltaOp::TruncateTable = &self.ops[j] {
                        assert(self@[j as int] is TruncateTable);
                        return false;
                    }
                    j = j + 1;
                }
                true
            },
            _ => false,
        }
    }

    /// Whether the delta removes the table's earlier file at `file_path`.
    pub fn has_removed_data_path(&self, file_path: &str) -> (r: bool)
        ensures
            r == removes_base_path(self@, file_path@),
    {
        let wanted = file_path.to_owned();
        let mut i: usize = 0;
        while i < self.ops.len()
            invariant
                i <= self.ops@.len(),
                wanted@ == file_path@,
                forall|k: int| 0 <= k < i ==> !(#[trigger] removes_base(self@, k) && self@[k]->RemoveDataFile_0@
                    == file_path@),
            decreases self.ops@.len() - i,
        {
            match &self.ops[i] {
                DeltaOp::RemoveDataFile(path) => {
                    if *path == wanted && self.removes_base_at(i) {
                        assert(removes_base(self@, i as int));
                        return true;
                    }
                },
                _ => {},
            }
            i = i + 1;
        }
        false
    }

    /// The added data files that remain, in the order of their addition.
    pub fn added_data_files(&self) -> (r: Vec<DataFile>)
        ensures
            r@ == live_data_files(self@, self@.len() as int),
    {
        let mut files: Vec<DataFile> = Vec::new();
        assert(self@.take(self@.len() as int) =~= self@);
        let mut i: usize = 0;
        while i < self.ops.len()
            invariant
                i <= self.ops@.len(),
                self@.take(self@.len() as int) == self@,
                files@ == live_data_files(self@, i as int),
            decreases self.ops@.len() - i,
        {
            let live = self.data_live_at(i, self.ops.len());
            match &self.ops[i] {
                DeltaOp::AddDataFile(file) => {
                    if live {
                        files.push(file.clone());
                    }
                },
                _ => {},
            }
            i = i + 1;
        }
        files
    }

    /// The paths of every file that the delta adds.
    pub fn created_file_paths(&self) -> (r: Vec<String>)
        ensures
            forall|path: Seq<char>| #[trigger] texts(r@).contains(path) <==> creates_path(self@, path),
    {
        let mut paths: Vec<String> = Vec::new();
        let mut i: usize = 0;
        assert(self@.take(0) =~= Seq::<DeltaOp>::empty());
        while i < self.ops.len()
            invariant
                i <= self.ops@.len(),
                forall|path: Seq<char>| #[trigger]
                    texts(paths@).contains(path) <==> creates_path(self@.take(i as int), path),
            decreases self.ops@.len() - i,
        {
            let ghost before = paths@;
            match &self.ops[i] {
                DeltaOp::AddDataFile(file) => {
                    paths.push(file.file_path.clone());
                },
                DeltaOp::AddPositionDeleteFile { file, .. } => {
                    paths.push(file.file_path.clone());
                },
                _ => {},
            }
            proof {
                lemma_created_next(self@, i as int, before, paths@);
            }
            i = i + 1;
        }
        assert(self@.take(self@.len() as int) =~= self@);
        paths
    }

    /// The paths at which the delta adds a file and leaves none.
    pub fn canceled_created_file_paths(&self) -> (r: Vec<String>)
        ensures
            forall|path: Seq<char>| #[trigger] texts(r@).contains(path) <==> cancels_path(self@, path),
    {
        let created = self.created_file_paths();
        let mut paths: Vec<String> = Vec::new();
        let mut i: usize = 0;
        while i < created.len()
            invariant
                i <= created@.len(),
                forall|path: Seq<char>| #[trigger]
                    texts(paths@).contains(path) <==> (texts(created@.take(i as int)).contains(path)
                        && !has_live_data(self@, path) && !has_live_delete(self@, path)),
            decreases created@.len() - i,
        {
            let ghost before = paths@;
            let live = self.has_live_added_data_file_path(created[i].as_str())
                || self.live_delete_path(&created[i]);
            if !live {
                paths.push(created[i].clone());
            }
            proof {
                lemma_texts_push(created@.take(i as int), created@[i as int]);
                lemma_texts_push(before, created@[i as int]);
                assert(created@.take(i + 1) =~= created@.take(i as int).push(created@[i as int]));
            }
            i = i + 1;
        }
        assert(created@.take(created@.len() as int) =~= created@);
        paths
    }

    /// The totals of the delta.
    pub fn stats(&self) -> (r: SnapshotDeltaStats)
        ensures
            r.truncates_base == truncates(self@),
            r.added_data_records == capped(total_records(live_data_files(self@, self@.len() as int))),
            r.added_data_file_bytes == capped(total_bytes(live_data_files(self@, self@.len() as int))),
            r.added_delete_file_bytes == capped(total_bytes(live_delete_files(self@, self@.len() as int))),
            texts(r.removed_data_paths@) == removed_base_paths(self@, self@.len() as int),
    {
        let mut records: u64 = 0;
        let mut data_bytes: u64 = 0;
        let mut delete_bytes: u64 = 0;
        let mut removed: Vec<String> = Vec::new();
        assert(self@.take(self@.len() as int) =~= self@);
        assert(texts(removed@) =~= Seq::<Seq<char>>::empty());
        let mut i: usize = 0;
        while i < self.ops.len()
            invariant
                i <= self.ops@.len(),
                self@.take(self@.len() as int) == self@,
                records == capped(total_records(live_data_files(self@, i as int))),
                data_bytes == capped(total_bytes(live_data_files(self@, i as int))),
                delete_bytes == capped(total_bytes(live_delete_files(self@, i as int))),
                texts(removed@) == removed_base_paths(self@, i as int),
            decreases self.ops@.len() - i,
        {
            let live_data = self.data_live_at(i, self.ops.len());
            let live_delete = self.delete_live_at(i);
            let removes = self.removes_base_at(i);
            let ghost before = removed@;
            match &self.ops[i] {
                DeltaOp::AddDataFile(file) => {
                    if live_data {
                        records = records.saturating_add(file.record_count);
                        data_bytes = data_bytes.saturating_add(file.file_size_in_bytes);
                        proof {
                            let earlier = live_data_files(self@, i as int);
                            assert(live_data_files(self@, i + 1) =~= earlier.push(*file));
                            assert(earlier.push(*file).drop_last() =~= earlier);
                        }
                    }
                },
                DeltaOp::AddPositionDeleteFile { file, .. } => {
                    if live_delete {
                        delete_bytes = delete_bytes.saturating_add(file.file_size_in_bytes);
                        proof {
                            let earlier = live_delete_files(self@, i as int);
                            assert(live_delete_files(self@, i + 1) =~= earlier.push(*file));
                            assert(earlier.push(*file).drop_last() =~= earlier);
                        }
                    }
                },
                DeltaOp::RemoveDataFile(path) => {
                    if removes {
                        removed.push(path.clone());
                        assert(texts(removed@) =~= texts(before).push(path@));
                    }
                },
                _ => {},
            }
            i = i + 1;
        }
        SnapshotDeltaStats {
            truncates_base: self.truncates_base(),
            added_data_records: records,
            added_data_file_bytes: data_bytes,
            added_delete_file_bytes: delete_bytes,
            removed_data_paths: removed,
        }
    }
}

impl Default for SnapshotDelta {
    fn default() -> (r: Self)
        ensures
            r@ == Seq::<DeltaOp>::empty(),
    {
        SnapshotDelta::new()
    }
}

proof fn lemma_created_next(ops: Seq<DeltaOp>, i: int, before: Seq<String>, after: Seq<String>)
    requires
        0 <= i < ops.len(),
        forall|path: Seq<char>| #[trigger] texts(before).contains(path) <==> creates_path(ops.take(i), path),
        match created_path(ops[i]) {
            Some(p) => after.len() == before.len() + 1 && after == before.push(after.last())
                && after.last()@ == p,
            None => after == before,
        },
    ensures
        forall|path: Seq<char>| #[trigger] texts(after).contains(path) <==> creates_path(ops.take(i + 1), path),
{
    let small = ops.take(i);
    let large = ops.take(i + 1);
    if created_path(ops[i]) is Some {
        lemma_texts_push(before, after.last());
    }
    assert forall|path: Seq<char>| #[trigger] texts(after).contains(path) <==> creates_path(large, path) by {
        if creates_path(small, path) {
            let k = choose|k: int| 0 <= k < small.len() && created_path(#[trigger] small[k]) == Some(path);
            assert(large[k] == small[k]);
        }
        if creates_path(large, path) {
            let k = choose|k: int| 0 <= k < large.len() && created_path(#[trigger] large[k]) == Some(path);
            if k < i {
                assert(small[k] == large[k]);
            } else {
                assert(large[k] == ops[i]);
            }
        }
        if created_path(ops[i]) == Some(path) {
            assert(large[i] == ops[i]);
        }
    }
}

/// Cutting a delta back to a mark taken earlier restores it, whatever was
/// appended since.
pub proof fn cut_back_restores(before: Seq<DeltaOp>, appended: Seq<DeltaOp>)
    ensures
        (before + appended).take(before.len() as int) == before,
{
    assert((before + appended).take(before.len() as int) =~= before);
}

/// After a truncation only later changes count: of the files that were added,
/// those that came later remain, and of the files that the table had, those
/// that were removed later count as removed one by one.
pub proof fn truncation_forgets(before: Seq<DeltaOp>, after: Seq<DeltaOp>, path: Seq<char>)
    ensures
        has_live_data(before.push(DeltaOp::TruncateTable) + after, path) <==> has_live_data(after, path),
        has_live_delete(before.push(DeltaOp::TruncateTable) + after, path) <==> has_live_delete(after, path),
        removes_base_path(before.push(DeltaOp::TruncateTable) + after, path) <==> removes_base_path(
            after,
            path,
        ),
        truncates(before.push(DeltaOp::TruncateTable) + after),
{
    let whole = before.push(DeltaOp::TruncateTable) + after;
    let shift = before.len() + 1;
    assert(whole[before.len() as int] is TruncateTable);
    lemma_truncated_data(before, after, path);
    if has_live_delete(after, path) {
        let i = choose|i: int| #[trigger] delete_live(after, i) && after[i]->file.file_path@ == path;
        assert(whole[i + shift] == after[i]);
        assert forall|j: int| i + shift < j < whole.len() implies !#[trigger] drops_delete(whole[j], path) by {
            assert(whole[j] == after[j - shift]);
            assert(!drops_delete(after[j - shift], path));
        }
        assert(delete_live(whole, i + shift));
    }
    if has_live_delete(whole, path) {
        let i = choose|i: int| #[trigger] delete_live(whole, i) && whole[i]->file.file_path@ == path;
        assert(i >= shift) by {
            if i < shift && i != before.len() {
                assert(drops_delete(whole[before.len() as int], path));
            }
        }
        assert(after[i - shift] == whole[i]);
        assert forall|j: int| i - shift < j < after.len() implies !#[trigger] drops_delete(after[j], path) by {
            assert(after[j] == whole[j + shift]);
            assert(!drops_delete(whole[j + shift], path));
        }
        assert(delete_live(after, i - shift));
    }
    if removes_base_path(after, path) {
        let i = choose|i: int| #[trigger] removes_base(after, i) && after[i]->RemoveDataFile_0@ == path;
        assert(whole[i + shift] == after[i]);
        assert(whole.take(i + shift) =~= before.push(DeltaOp::TruncateTable) + after.take(i));
        lemma_truncated_data(before, after.take(i), path);
        assert forall|j: int| i + shift < j < whole.len() implies !(#[trigger] whole[j] is TruncateTable) by {
            assert(whole[j] == after[j - shift]);
        }
        assert(removes_base(whole, i + shift));
    }
    if removes_base_path(whole, path) {
        let i = choose|i: int| #[trigger] removes_base(whole, i) && whole[i]->RemoveDataFile_0@ == path;
        assert(i >= shift) by {
            if i < shift {
                assert(i != before.len());
                assert(whole[before.len() as int] is TruncateTable);
            }
        }
        assert(after[i - shift] == whole[i]);
        assert(whole.take(i) =~= before.push(DeltaOp::TruncateTable) + after.take(i - shift));
        lemma_truncated_data(before, after.take(i - shift), path);
        assert forall|j: int| i - shift < j < after.len() implies !(#[trigger] after[j] is TruncateTable) by {
            assert(after[j] == whole[j + shift]);
        }
        assert(removes_base(after, i - shift));
    }
}

proof fn lemma_truncated_data(before: Seq<DeltaOp>, after: Seq<DeltaOp>, path: Seq<char>)
    ensures
        has_live_data(before.push(DeltaOp::TruncateTable) + after, path) <==> has_live_data(after, path),
{
    let whole = before.push(DeltaOp::TruncateTable) + after;
    let shift = before.len() + 1;
    assert(whole[before.len() as int] is TruncateTable);
    if has_live_data(after, path) {
        let i = choose|i: int| #[trigger] data_live(after, i) && after[i]->AddDataFile_0.file_path@ == path;
        assert(whole[i + shift] == after[i]);
        assert forall|j: int| i + shift < j < whole.len() implies !#[trigger] drops_data(whole[j], path) by {
            assert(whole[j] == after[j - shift]);
            assert(!drops_data(after[j - shift], path));
        }
        assert(data_live(whole, i + shift));
    }
    if has_live_data(whole, path) {
        let i = choose|i: int| #[trigger] data_live(whole, i) && whole[i]->AddDataFile_0.file_path@ == path;
        assert(i >= shift) by {
            if i < shift && i != before.len() {
                assert(drops_data(whole[before.len() as int], path));
            }
        }
        assert(after[i - shift] == whole[i]);
        assert forall|j: int| i - shift < j < after.len() implies !#[trigger] drops_data(after[j], path) by {
            assert(after[j] == whole[j + shift]);
            assert(!drops_data(whole[j + shift], path));
        }
        assert(data_live(after, i - shift));
    }
}

} // verus!
