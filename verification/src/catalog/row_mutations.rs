//! Physical identity and mutation ownership of rows inside a transaction.
//!
//! A data-file path gets an identifier that stays the same for the life of the
//! transaction, and each changed row remembers the command that changed it
//! first.

use vstd::prelude::*;

use roaring::RoaringBitmap;
use vstd::hash_map::StringHashMap;

use crate::error::{IcebergError, IcebergResult};
use crate::text::{decimal, decimal_text};

verus! {

/// Bits of a file identifier.
pub const ICEBERG_FILE_ID_BITS: u32 = 17;

/// Files that one relation can register in a transaction, 2^17.
pub const MAX_ICEBERG_FILES: usize = 131072;

/// Identifier of one data-file path within a transaction and relation.
#[derive(Debug, Clone, Copy, PartialEq, Eq, Hash, Structural)]
pub struct IcebergFileId(pub u32);

impl IcebergFileId {
    /// Takes a number as an identifier.
    pub fn from_raw(raw: u32) -> (r: Self)
        ensures
            r.0 == raw,
    {
        IcebergFileId(raw)
    }

    /// Takes a number as an identifier when it fits the identifier bits.
    pub fn try_from_raw(raw: u32) -> (r: IcebergResult<Self>)
        ensures
            raw < MAX_ICEBERG_FILES ==> r == Ok::<Self, IcebergError>(IcebergFileId(raw)),
            raw >= MAX_ICEBERG_FILES ==> r == Err::<Self, IcebergError>(
                IcebergError::FileIdLimitExceeded { max_files: MAX_ICEBERG_FILES },
            ),
    {
        if raw as usize >= MAX_ICEBERG_FILES {
            return Err(IcebergError::FileIdLimitExceeded { max_files: MAX_ICEBERG_FILES });
        }
        Ok(IcebergFileId(raw))
    }

    /// The identifier as a number.
    pub fn raw(self) -> (r: u32)
        ensures
            r == self.0,
    {
        self.0
    }

    /// The place of the file in the registry.
    pub fn index(self) -> (r: usize)
        ensures
            r == self.0,
    {
        self.0 as usize
    }
}

/// Identity of one modify state of a relation.
#[derive(Debug, Clone, Copy, PartialEq, Eq, Structural)]
pub struct ModifyStateId(pub u64);

/// `roaring::RoaringBitmap`, a set of 32-bit numbers.
#[verifier::external_type_specification]
#[verifier::external_body]
pub struct ExRoaringBitmap(RoaringBitmap);

/// The numbers that a bitmap holds.
pub uninterp spec fn bitmap_set(bitmap: RoaringBitmap) -> Set<u32>;

/// `RoaringBitmap::new` makes a bitmap that holds nothing.
pub assume_specification[ RoaringBitmap::new ]() -> (r: RoaringBitmap)
    ensures
        bitmap_set(r) == Set::<u32>::empty(),
;

/// `RoaringBitmap::insert` adds one number and says whether it was absent.
pub assume_specification[ RoaringBitmap::insert ](bitmap: &mut RoaringBitmap, value: u32) -> (r: bool)
    ensures
        bitmap_set(*final(bitmap)) == bitmap_set(*old(bitmap)).insert(value),
        r == !bitmap_set(*old(bitmap)).contains(value),
;

/// `RoaringBitmap::contains` says whether the bitmap holds a number.
pub assume_specification[ RoaringBitmap::contains ](bitmap: &RoaringBitmap, value: u32) -> (r: bool)
    ensures
        r == bitmap_set(*bitmap).contains(value),
;

/// Names row positions in one file that were handed to a modify state. They
/// grow with the rows that it claims, and stay when its claims are undone.
#[derive(Debug, Clone, Copy, PartialEq, Eq, Structural)]
pub struct OwnedRowPositions {
    pub file_id: IcebergFileId,
    pub handle: usize,
}

/// Result of claiming one physical row for mutation.
#[derive(Debug, Clone, Copy, PartialEq, Eq, Structural)]
pub enum RowMutationClaim {
    /// The row was free. The positions are named when the modify state touched
    /// the file for the first time.
    FirstTouch { new_file_positions: Option<OwnedRowPositions> },
    /// A command of this transaction changed the row before.
    PreviouslyModified { modifying_command_id: u32 },
}

struct MutationOwner {
    modify_state_id: ModifyStateId,
    command_id: u32,
    nest_level: i32,
    /// The place of the owner's positions among those handed out.
    positions: usize,
}

struct RegisteredFile {
    path: String,
    mutation_owners: Vec<MutationOwner>,
    /// The positions that were handed out, also those of owners that are gone.
    handed: Vec<RoaringBitmap>,
}

/// Files and row owners of one relation in one transaction.
pub struct RelationRowRegistry {
    file_ids: StringHashMap<IcebergFileId>,
    files: Vec<RegisteredFile>,
    next_modify_state_id: u64,
}

/// The rows of one file that one modify state changed, and the handle by which
/// they were handed to it.
pub struct OwnerView {
    pub modify_state_id: u64,
    pub command_id: u32,
    pub nest_level: int,
    pub handle: int,
    pub positions: Set<u32>,
}

/// A registered file, its row owners, oldest first, and the positions that were
/// handed out, by handle.
pub struct FileView {
    pub path: Seq<char>,
    pub owners: Seq<OwnerView>,
    pub handed: Seq<Set<u32>>,
}

/// The registered files in identifier order and the next modify state.
pub struct RegistryView {
    pub files: Seq<FileView>,
    pub next_modify_state_id: nat,
}

impl MutationOwner {
    spec fn view(self, handed: Seq<RoaringBitmap>) -> OwnerView {
        OwnerView {
            modify_state_id: self.modify_state_id.0,
            command_id: self.command_id,
            nest_level: self.nest_level as int,
            handle: self.positions as int,
            positions: bitmap_set(handed[self.positions as int]),
        }
    }
}

impl View for RegisteredFile {
    type V = FileView;

    closed spec fn view(&self) -> FileView {
        FileView {
            path: self.path@,
            owners: owner_views(self.mutation_owners@, self.handed@),
            handed: bitmap_sets(self.handed@),
        }
    }
}

spec fn owner_views(owners: Seq<MutationOwner>, handed: Seq<RoaringBitmap>) -> Seq<OwnerView> {
    Seq::new(owners.len(), |i: int| owners[i].view(handed))
}

spec fn bitmap_sets(bitmaps: Seq<RoaringBitmap>) -> Seq<Set<u32>> {
    Seq::new(bitmaps.len(), |i: int| bitmap_set(bitmaps[i]))
}

spec fn file_views(files: Seq<RegisteredFile>) -> Seq<FileView> {
    Seq::new(files.len(), |i: int| files[i]@)
}

impl View for RelationRowRegistry {
    type V = RegistryView;

    closed spec fn view(&self) -> RegistryView {
        RegistryView {
            files: file_views(self.files@),
            next_modify_state_id: self.next_modify_state_id as nat,
        }
    }
}

/// Whether owner `i` is the modify state `id`.
pub open spec fn owned_by(owners: Seq<OwnerView>, i: int, id: u64) -> bool {
    0 <= i < owners.len() && owners[i].modify_state_id == id
}

/// Whether owner `i` holds the row at `position`.
pub open spec fn holds(owners: Seq<OwnerView>, i: int, position: u32) -> bool {
    0 <= i < owners.len() && owners[i].positions.contains(position)
}

impl FileView {
    /// No modify state owns a file twice and no row has two owners. Each owner
    /// has a handle of its own, which names the owner's rows.
    pub open spec fn wf(self) -> bool {
        &&& forall|i: int|
            0 <= i < self.owners.len() ==> 0 <= (#[trigger] self.owners[i]).handle < self.handed.len()
                && self.owners[i].positions == self.handed[self.owners[i].handle]
        &&& forall|i: int, j: int|
            0 <= i < j < self.owners.len() ==> (#[trigger] self.owners[i]).handle != (
            #[trigger] self.owners[j]).handle
        &&& forall|i: int, j: int|
            0 <= i < j < self.owners.len() ==> (#[trigger] self.owners[i]).modify_state_id != (
            #[trigger] self.owners[j]).modify_state_id
        &&& forall|i: int, j: int, p: u32|
            0 <= i < j < self.owners.len() ==> !(#[trigger] self.owners[i].positions.contains(p)
                && #[trigger] self.owners[j].positions.contains(p))
    }
}

impl RegistryView {
    /// The registered paths are distinct and fit the identifiers, and each
    /// file's owners are sound.
    pub open spec fn wf(self) -> bool {
        &&& self.files.len() <= MAX_ICEBERG_FILES
        &&& forall|i: int, j: int|
            0 <= i < j < self.files.len() ==> (#[trigger] self.files[i]).path != (
            #[trigger] self.files[j]).path
        &&& forall|i: int| 0 <= i < self.files.len() ==> (#[trigger] self.files[i]).wf()
    }

    /// Whether `path` is registered.
    pub open spec fn registered(self, path: Seq<char>) -> bool {
        exists|i: int| 0 <= i < self.files.len() && #[trigger] self.files[i].path == path
    }

    /// This registry with the owners and the handed-out positions of one file
    /// replaced.
    pub open spec fn with_owners(
        self,
        file: int,
        owners: Seq<OwnerView>,
        handed: Seq<Set<u32>>,
    ) -> RegistryView {
        RegistryView {
            files: self.files.update(file, FileView { owners, handed, ..self.files[file] }),
            ..self
        }
    }

    /// This registry after the writes at `level` or deeper were undone.
    pub open spec fn rolled_back(self, level: int) -> RegistryView {
        RegistryView {
            files: self.files.map_values(
                |f: FileView|
                    FileView {
                        owners: f.owners.filter(|o: OwnerView| o.nest_level < level),
                        ..f
                    },
            ),
            ..self
        }
    }

    /// This registry after the writes at `level` or deeper were handed to the
    /// enclosing level.
    pub open spec fn promoted(self, level: int) -> RegistryView {
        RegistryView {
            files: self.files.map_values(
                |f: FileView|
                    FileView { owners: f.owners.map_values(|o: OwnerView| o.promoted(level)), ..f },
            ),
            ..self
        }
    }
}

impl OwnerView {
    /// This owner with a level at or below `level` moved to the enclosing one.
    pub open spec fn promoted(self, level: int) -> OwnerView {
        if self.nest_level >= level {
            OwnerView { nest_level: level - 1, ..self }
        } else {
            self
        }
    }
}

/// Filtering a longer prefix keeps or skips its last element.
proof fn lemma_filter_next<A>(s: Seq<A>, i: int, keep: spec_fn(A) -> bool)
    requires
        0 <= i < s.len(),
    ensures
        s.take(i + 1).filter(keep) == if keep(s[i]) {
            s.take(i).filter(keep).push(s[i])
        } else {
            s.take(i).filter(keep)
        },
{
    reveal(Seq::filter);
    assert(s.take(i + 1).drop_last() =~= s.take(i));
}

/// Filtering owners keeps them sound.
proof fn lemma_filter_wf(file: FileView, keep: spec_fn(OwnerView) -> bool)
    requires
        file.wf(),
    ensures
        (FileView { owners: file.owners.filter(keep), ..file }).wf(),
    decreases file.owners.len(),
{
    reveal(Seq::filter);
    let owners = file.owners;
    if owners.len() > 0 {
        let rest = FileView { owners: owners.drop_last(), ..file };
        lemma_filter_wf(rest, keep);
        let kept = owners.drop_last().filter(keep);
        assert forall|i: int| #![trigger kept[i]] 0 <= i < kept.len() implies exists|k: int|
            0 <= k < owners.len() - 1 && #[trigger] owners[k] == kept[i] by {
            owners.drop_last().lemma_filter_contains_rev(keep, kept[i]);
            let k = choose|k: int| 0 <= k < owners.drop_last().len() && owners.drop_last()[k] == kept[i];
            assert(owners[k] == kept[i]);
        }
        if keep(owners.last()) {
            let all = kept.push(owners.last());
            let small = FileView { owners: kept, ..file };
            assert(small.wf());
            let last = owners.len() - 1;
            assert forall|i: int, j: int, p: u32| 0 <= i < j < all.len() implies !(
            #[trigger] all[i].positions.contains(p) && #[trigger] all[j].positions.contains(p)) by {
                if j < kept.len() {
                    assert(all[i] == small.owners[i] && all[j] == small.owners[j]);
                    assert(!(small.owners[i].positions.contains(p) && small.owners[j].positions.contains(p)));
                } else {
                    assert(all[i] == kept[i]);
                    let k = choose|k: int| 0 <= k < owners.len() - 1 && #[trigger] owners[k] == kept[i];
                    assert(!(file.owners[k].positions.contains(p) && file.owners[last].positions.contains(p)));
                }
            }
            assert forall|i: int, j: int| 0 <= i < j < all.len() implies (#[trigger] all[i]).modify_state_id
                != (#[trigger] all[j]).modify_state_id && all[i].handle != all[j].handle by {
                if j < kept.len() {
                    assert(all[i] == small.owners[i] && all[j] == small.owners[j]);
                } else {
                    assert(all[i] == kept[i]);
                    let k = choose|k: int| 0 <= k < owners.len() - 1 && #[trigger] owners[k] == kept[i];
                    assert(file.owners[k].modify_state_id != file.owners[last].modify_state_id);
                    assert(file.owners[k].handle != file.owners[last].handle);
                }
            }
            assert forall|i: int| 0 <= i < all.len() implies 0 <= (#[trigger] all[i]).handle
                < file.handed.len() && all[i].positions == file.handed[all[i].handle] by {
                if i < kept.len() {
                    assert(all[i] == small.owners[i]);
                } else {
                    assert(all[i] == file.owners[last]);
                }
            }
        }
    }
}

/// Replacing the owners of one file by sound owners keeps a registry sound.
proof fn lemma_with_owners_wf(
    registry: RegistryView,
    file: int,
    owners: Seq<OwnerView>,
    handed: Seq<Set<u32>>,
)
    requires
        registry.wf(),
        0 <= file < registry.files.len(),
        (FileView { owners, handed, ..registry.files[file] }).wf(),
    ensures
        registry.with_owners(file, owners, handed).wf(),
{
    let after = registry.with_owners(file, owners, handed);
    assert forall|i: int| 0 <= i < after.files.len() implies (#[trigger] after.files[i]).path
        == registry.files[i].path && after.files[i].wf() by {
        assert(registry.files[i].wf());
    }
}

impl RelationRowRegistry {
    /// The index of paths names the place of each file.
    pub closed spec fn wf(self) -> bool {
        &&& self@.wf()
        &&& forall|i: int|
            0 <= i < self.files@.len() ==> self.file_ids@.contains_key((#[trigger] self.files@[i]).path@)
                && self.file_ids@[self.files@[i].path@].0 == i
        &&& forall|path: Seq<char>| #[trigger]
            self.file_ids@.contains_key(path) ==> self.file_ids@[path].0 < self.files@.len()
                && self.files@[self.file_ids@[path].0 as int].path@ == path
    }

    /// A registry of a relation that nothing has touched.
    pub fn new() -> (r: Self)
        ensures
            r.wf(),
            r@.files == Seq::<FileView>::empty(),
            r@.next_modify_state_id == 0,
    {
        let r = RelationRowRegistry {
            file_ids: StringHashMap::new(),
            files: Vec::new(),
            next_modify_state_id: 0,
        };
        assert(r@.files =~= Seq::<FileView>::empty());
        r
    }

    /// Gives a path its identifier: the one it has, or the next free one.
    pub fn register_file(&mut self, file_path: &str) -> (r: IcebergResult<IcebergFileId>)
        requires
            old(self).wf(),
        ensures
            final(self).wf(),
            old(self)@.registered(file_path@) ==> *final(self) == *old(self) && r is Ok
                && r->Ok_0.0 < old(self)@.files.len() && old(self)@.files[r->Ok_0.0 as int].path == file_path@,
            !old(self)@.registered(file_path@) && old(self)@.files.len() < MAX_ICEBERG_FILES ==> {
                &&& r is Ok
                &&& r->Ok_0.0 == old(self)@.files.len()
                &&& final(self)@ == (RegistryView {
                    files: old(self)@.files.push(
                        FileView { path: file_path@, owners: Seq::empty(), handed: Seq::empty() },
                    ),
                    ..old(self)@
                })
            },
            !old(self)@.registered(file_path@) && old(self)@.files.len() >= MAX_ICEBERG_FILES ==> *final(self) == *old(self) && r == Err::<IcebergFileId, IcebergError>(
                IcebergError::FileIdLimitExceeded { max_files: MAX_ICEBERG_FILES },
            ),
    {
        proof {
            assert forall|i: int| 0 <= i < self.files@.len() implies #[trigger] self@.files[i].path
                == self.files@[i].path@ by {}
        }
        match self.file_ids.get(file_path) {
            Some(file_id) => {
                assert(self@.files[file_id.0 as int].path == file_path@);
                return Ok(*file_id);
            },
            None => {},
        }
        proof {
            assert(!self@.registered(file_path@)) by {
                if self@.registered(file_path@) {
                    let i = choose|i: int|
                        0 <= i < self@.files.len() && #[trigger] self@.files[i].path == file_path@;
                    assert(self.file_ids@.contains_key(self.files@[i].path@));
                }
            }
        }
        if self.files.len() >= MAX_ICEBERG_FILES {
            return Err(IcebergError::FileIdLimitExceeded { max_files: MAX_ICEBERG_FILES });
        }
        let ghost before = *self;
        let file_id = IcebergFileId(self.files.len() as u32);
        self.file_ids.insert(file_path.to_owned(), file_id);
        self.files.push(
            RegisteredFile {
                path: file_path.to_owned(),
                mutation_owners: Vec::new(),
                handed: Vec::new(),
            },
        );
        proof {
            let added = FileView { path: file_path@, owners: Seq::empty(), handed: Seq::empty() };
            assert(self.files@.last()@.owners =~= Seq::<OwnerView>::empty());
            assert(self.files@.last()@.handed =~= Seq::<Set<u32>>::empty());
            assert(self@.files =~= before@.files.push(added));
            assert(added.wf());
            assert forall|i: int| 0 <= i < self.files@.len() implies self.file_ids@.contains_key(
                (#[trigger] self.files@[i]).path@,
            ) && self.file_ids@[self.files@[i].path@].0 == i by {
                if i < before.files@.len() {
                    assert(self.files@[i] == before.files@[i]);
                    assert(before@.files[i].path == before.files@[i].path@);
                    assert(before.files@[i].path@ != file_path@);
                }
            }
            assert forall|path: Seq<char>| #[trigger] self.file_ids@.contains_key(path) implies self.file_ids@[path].0
                < self.files@.len() && self.files@[self.file_ids@[path].0 as int].path@ == path by {
                if path != file_path@ {
                    assert(before.file_ids@.contains_key(path));
                }
            }
        }
        Ok(file_id)
    }

    /// The path of a registered file.
    pub fn file_path(&self, file_id: IcebergFileId) -> (r: IcebergResult<String>)
        requires
            self.wf(),
        ensures
            file_id.0 < self@.files.len() ==> r is Ok && r->Ok_0@ == self@.files[file_id.0 as int].path,
            file_id.0 >= self@.files.len() ==> (r matches Err(IcebergError::MetadataTracker(m)) && m@
                == "unknown Iceberg file ID "@ + decimal(file_id.0 as nat)),
    {
        if file_id.index() >= self.files.len() {
            return Err(unknown_file(file_id));
        }
        Ok(self.files[file_id.index()].path.clone())
    }

    /// Allocates the identity of a modify state. Identities ascend; the last
    /// one is never handed out.
    pub fn begin_modify_state(&mut self) -> (r: IcebergResult<ModifyStateId>)
        requires
            old(self).wf(),
        ensures
            final(self).wf(),
            old(self)@.next_modify_state_id < u64::MAX ==> r is Ok && r->Ok_0.0
                == old(self)@.next_modify_state_id && final(self)@ == (RegistryView {
                next_modify_state_id: old(self)@.next_modify_state_id + 1,
                ..old(self)@
            }),
            old(self)@.next_modify_state_id >= u64::MAX ==> final(self)@ == old(self)@ && (
            r matches Err(IcebergError::MetadataTracker(m)) && m@
                == "Iceberg ModifyState ID space was exhausted"@),
    {
        let id = ModifyStateId(self.next_modify_state_id);
        match self.next_modify_state_id.checked_add(1) {
            Some(next) => {
                self.next_modify_state_id = next;
                Ok(id)
            },
            None => Err(
                IcebergError::MetadataTracker(
                    "Iceberg ModifyState ID space was exhausted".to_owned(),
                ),
            ),
        }
    }

    /// Claims a physical row for a modify state at a subtransaction level.
    ///
    /// A row that another modify state holds, or that this one holds already,
    /// is reported with the command that changed it. A free row becomes this
    /// modify state's.
    pub fn claim_at_level(
        &mut self,
        modify_state_id: ModifyStateId,
        file_id: IcebergFileId,
        position: u32,
        command_id: u32,
        nest_level: i32,
    ) -> (r: IcebergResult<RowMutationClaim>)
        requires
            old(self).wf(),
        ensures
            final(self).wf(),
            claim_outcome(
                old(self)@,
                modify_state_id.0,
                file_id.0 as int,
                position,
                command_id,
                nest_level as int,
                final(self)@,
                r,
            ),
    {
        if file_id.index() >= self.files.len() {
            return Err(unknown_file(file_id));
        }
        let f: usize = file_id.index();
        let ghost owners = self@.files[f as int].owners;
        let ghost handed = self@.files[f as int].handed;
        proof {
            assert(self@.files[f as int].wf());
            assert(owners.len() == self.files@[f as int].mutation_owners@.len());
            assert(handed.len() == self.files@[f as int].handed@.len());
        }
        let count: usize = self.files[f].mutation_owners.len();
        let mut current: Option<usize> = None;
        let mut i: usize = 0;
        while i < count
            invariant
                f < self.files@.len(),
                *self == *old(self),
                owners == owner_views(
                    self.files@[f as int].mutation_owners@,
                    self.files@[f as int].handed@,
                ),
                count == self.files@[f as int].mutation_owners@.len(),
                i <= count,
                current is None ==> forall|k: int| 0 <= k < i ==> !#[trigger] owned_by(owners, k, modify_state_id.0),
                current matches Some(c) ==> c < count && owned_by(owners, c as int, modify_state_id.0),
            decreases count - i,
        {
            if current.is_none() && self.files[f].mutation_owners[i].modify_state_id == modify_state_id {
                assert(owned_by(owners, i as int, modify_state_id.0));
                current = Some(i);
            }
            i = i + 1;
        }
        let mut i: usize = 0;
        while i < count
            invariant
                f < self.files@.len(),
                file_id.0 == f,
                old(self).wf(),
                *self == *old(self),
                owners == self@.files[f as int].owners,
                handed == self@.files[f as int].handed,
                handed.len() == self.files@[f as int].handed@.len(),
                owners == owner_views(
                    self.files@[f as int].mutation_owners@,
                    self.files@[f as int].handed@,
                ),
                count == self.files@[f as int].mutation_owners@.len(),
                i <= count,
                current is None ==> forall|k: int| 0 <= k < count ==> !#[trigger] owned_by(owners, k, modify_state_id.0),
                current matches Some(c) ==> c < count && owned_by(owners, c as int, modify_state_id.0),
                forall|k: int| 0 <= k < i && current != Some(k as usize) ==> !#[trigger] holds(owners, k, position),
            decreases count - i,
        {
            let is_current = match current {
                Some(c) => c == i,
                None => false,
            };
            proof {
                assert(self@.files[f as int].wf());
                assert(owners[i as int].handle < handed.len());
            }
            let file = &self.files[f];
            if !is_current && file.handed[file.mutation_owners[i].positions].contains(position) {
                assert(holds(owners, i as int, position));
                assert(!owned_by(owners, i as int, modify_state_id.0)) by {
                    assert(self@.files[f as int].wf());
                }
                return Ok(
                    RowMutationClaim::PreviouslyModified {
                        modifying_command_id: self.files[f].mutation_owners[i].command_id,
                    },
                );
            }
            i = i + 1;
        }
        proof {
            assert(self@.files[f as int].wf());
            assert forall|k: int| #[trigger] holds(owners, k, position) implies current is Some && k
                == current->Some_0 by {}
        }
        match current {
            Some(c) => {
                if self.files[f].mutation_owners[c].command_id != command_id {
                    return Err(
                        IcebergError::InvariantViolated(
                            "one Iceberg ModifyState observed multiple command IDs",
                        ),
                    );
                }
                let ghost before = *self;
                assert(owners[c as int].handle < handed.len());
                let h: usize = self.files[f].mutation_owners[c].positions;
                let inserted = self.files[f].handed[h].insert(position);
                proof {
                    let grown = OwnerView {
                        positions: owners[c as int].positions.insert(position),
                        ..owners[c as int]
                    };
                    let more = handed.update(h as int, grown.positions);
                    assert(self.files@[f as int]@.handed =~= more);
                    assert forall|k: int| 0 <= k < owners.len() && k != c implies (
                    #[trigger] owners[k]).handle != h by {
                        if k < c {
                            assert(owners[k].handle != owners[c as int].handle);
                        } else {
                            assert(owners[c as int].handle != owners[k].handle);
                        }
                    }
                    assert(self.files@[f as int]@.owners =~= owners.update(c as int, grown)) by {
                        assert forall|k: int| 0 <= k < owners.len() implies #[trigger] self.files@[f as int]@.owners[k]
                            == owners.update(c as int, grown)[k] by {
                            if k != c {
                                assert(owners[k].handle != h);
                            }
                        }
                    }
                    assert(self@.files =~= before@.with_owners(
                        f as int,
                        owners.update(c as int, grown),
                        more,
                    ).files);
                    let after = FileView {
                        owners: owners.update(c as int, grown),
                        handed: more,
                        ..before@.files[f as int]
                    };
                    assert forall|i: int, j: int| 0 <= i < j < after.owners.len() implies (
                    #[trigger] after.owners[i]).handle != (#[trigger] after.owners[j]).handle
                        && after.owners[i].modify_state_id != after.owners[j].modify_state_id by {
                        assert(owners[i].handle != owners[j].handle);
                        assert(owners[i].modify_state_id != owners[j].modify_state_id);
                    }
                    assert forall|i: int| 0 <= i < after.owners.len() implies 0 <= (
                    #[trigger] after.owners[i]).handle < more.len() && after.owners[i].positions
                        == more[after.owners[i].handle] by {
                        assert(0 <= owners[i].handle < handed.len());
                        assert(owners[i].positions == handed[owners[i].handle]);
                        if i != c {
                            assert(owners[i].handle != h);
                        }
                    }
                    assert forall|i: int, j: int, p: u32| 0 <= i < j < after.owners.len() implies !(
                    #[trigger] after.owners[i].positions.contains(p)
                        && #[trigger] after.owners[j].positions.contains(p)) by {
                        assert(!(owners[i].positions.contains(p) && owners[j].positions.contains(p)));
                        if p == position {
                            assert(holds(owners, i, p) ==> i == c);
                            assert(holds(owners, j, p) ==> j == c);
                        }
                    }
                    assert(after.wf());
                    lemma_with_owners_wf(before@, f as int, owners.update(c as int, grown), more);
                    lemma_same_paths(before, *self);
                    if owners[c as int].positions.contains(position) {
                        assert(grown.positions =~= owners[c as int].positions);
                        assert(owners.update(c as int, grown) =~= owners);
                        assert(more =~= handed);
                        assert(self@.files =~= before@.files);
                        assert(holds(owners, c as int, position));
                    }
                }
                if !inserted {
                    return Ok(
                        RowMutationClaim::PreviouslyModified { modifying_command_id: command_id },
                    );
                }
                Ok(RowMutationClaim::FirstTouch { new_file_positions: None })
            },
            None => {
                let mut positions = RoaringBitmap::new();
                let _inserted = positions.insert(position);
                let ghost before = *self;
                let handle: usize = self.files[f].handed.len();
                let owner = MutationOwner { modify_state_id, command_id, nest_level, positions: handle };
                self.files[f].handed.push(positions);
                self.files[f].mutation_owners.push(owner);
                proof {
                    let added = OwnerView {
                        modify_state_id: modify_state_id.0,
                        command_id,
                        nest_level: nest_level as int,
                        handle: handle as int,
                        positions: Set::<u32>::empty().insert(position),
                    };
                    let more = handed.push(added.positions);
                    assert(self.files@[f as int]@.handed =~= more);
                    assert forall|k: int| 0 <= k < owners.len() implies 0 <= (
                    #[trigger] owners[k]).handle < handle && owners[k].positions
                        == handed[owners[k].handle] by {
                        assert(before@.files[f as int].wf());
                    }
                    assert(self.files@[f as int]@.owners =~= owners.push(added)) by {
                        assert forall|k: int| 0 <= k < owners.len() implies #[trigger] self.files@[f as int]@.owners[k]
                            == owners[k] by {
                            assert(owners[k].handle < handle);
                        }
                    }
                    assert(self@.files =~= before@.with_owners(f as int, owners.push(added), more).files);
                    assert forall|k: int| 0 <= k < owners.len() implies !(#[trigger] owners[k]).positions.contains(
                        position,
                    ) && owners[k].modify_state_id != modify_state_id.0 by {
                        assert(!owned_by(owners, k, modify_state_id.0));
                        assert(!holds(owners, k, position));
                    }
                    lemma_with_owners_wf(before@, f as int, owners.push(added), more);
                    lemma_same_paths(before, *self);
                }
                Ok(
                    RowMutationClaim::FirstTouch {
                        new_file_positions: Some(OwnedRowPositions { file_id, handle }),
                    },
                )
            },
        }
    }

    /// The positions that a handle names, also where the claims were undone.
    pub fn owned_positions(&self, owned: OwnedRowPositions) -> (r: IcebergResult<&RoaringBitmap>)
        requires
            self.wf(),
        ensures
            match r {
                Ok(positions) => {
                    &&& owned.file_id.0 < self@.files.len()
                    &&& owned.handle < self@.files[owned.file_id.0 as int].handed.len()
                    &&& bitmap_set(*positions) == self@.files[owned.file_id.0 as int].handed[owned.handle as int]
                },
                Err(e) => if owned.file_id.0 >= self@.files.len() {
                    e matches IcebergError::MetadataTracker(m) && m@ == "unknown Iceberg file ID "@ + decimal(
                        owned.file_id.0 as nat,
                    )
                } else {
                    owned.handle >= self@.files[owned.file_id.0 as int].handed.len() && e
                        == IcebergError::InvariantViolated(
                        "Iceberg row positions were not handed out by this registry",
                    )
                },
            },
    {
        if owned.file_id.index() >= self.files.len() {
            return Err(unknown_file(owned.file_id));
        }
        let file = &self.files[owned.file_id.index()];
        assert(file@.handed.len() == file.handed@.len());
        if owned.handle >= file.handed.len() {
            return Err(
                IcebergError::InvariantViolated(
                    "Iceberg row positions were not handed out by this registry",
                ),
            );
        }
        Ok(&file.handed[owned.handle])
    }

    /// Forgets the owners of rows changed at `target_level` or deeper. Paths
    /// and identifiers stay.
    pub fn rollback_to_level(&mut self, target_level: i32)
        requires
            old(self).wf(),
        ensures
            final(self).wf(),
            final(self)@ == old(self)@.rolled_back(target_level as int),
    {
        let ghost level = target_level as int;
        let ghost keep = |o: OwnerView| o.nest_level < level;
        let mut f: usize = 0;
        while f < self.files.len()
            invariant
                level == target_level,
                keep == (|o: OwnerView| o.nest_level < level),
                f <= self.files@.len(),
                self.files@.len() == old(self).files@.len(),
                self.file_ids == old(self).file_ids,
                self.next_modify_state_id == old(self).next_modify_state_id,
                forall|k: int|
                    0 <= k < self.files@.len() ==> (#[trigger] self.files@[k]).path == old(self).files@[k].path
                        && self.files@[k].handed == old(self).files@[k].handed,
                forall|k: int| 0 <= k < f ==> (#[trigger] self.files@[k])@.owners == old(self).files@[k]@.owners.filter(keep),
                forall|k: int| f <= k < self.files@.len() ==> #[trigger] self.files@[k] == old(self).files@[k],
            decreases self.files@.len() - f,
        {
            let mut taken: Vec<MutationOwner> = Vec::new();
            std::mem::swap(&mut taken, &mut self.files[f].mutation_owners);
            let ghost handed = self.files@[f as int].handed@;
            let ghost all = owner_views(taken@, handed);
            let mut kept: Vec<MutationOwner> = Vec::new();
            proof {
                reveal(Seq::filter);
                assert(all.take(0).filter(keep) =~= Seq::<OwnerView>::empty());
                assert(owner_views(kept@, handed) =~= Seq::<OwnerView>::empty());
            }
            for owner in it: taken.into_iter()
                invariant
                    level == target_level,
                    keep == (|o: OwnerView| o.nest_level < level),
                    all == owner_views(it.seq(), handed),
                    owner_views(kept@, handed) == all.take(it.index() as int).filter(keep),
            {
                proof {
                    lemma_filter_next(all, it.index() as int, keep);
                    assert(all[it.index() as int] == owner.view(handed));
                }
                if owner.nest_level < target_level {
                    let ghost before = kept@;
                    kept.push(owner);
                    assert(owner_views(kept@, handed) =~= owner_views(before, handed).push(
                        owner.view(handed),
                    ));
                }
            }
            assert(all.take(all.len() as int) =~= all);
            self.files[f].mutation_owners = kept;
            f = f + 1;
        }
        proof {
            assert(self@.files =~= old(self)@.rolled_back(level).files);
            assert forall|k: int| 0 <= k < self@.files.len() implies (#[trigger] self@.files[k]).wf() by {
                assert(old(self)@.files[k].wf());
                lemma_filter_wf(old(self)@.files[k], keep);
            }
            lemma_same_paths(*old(self), *self);
        }
    }

    /// Hands the rows changed at `from_level` or deeper to the enclosing level.
    pub fn promote_to_level(&mut self, from_level: i32)
        requires
            old(self).wf(),
            from_level > i32::MIN,
        ensures
            final(self).wf(),
            final(self)@ == old(self)@.promoted(from_level as int),
    {
        let ghost level = from_level as int;
        let ghost shift = |o: OwnerView| o.promoted(level);
        let mut f: usize = 0;
        while f < self.files.len()
            invariant
                level == from_level,
                from_level > i32::MIN,
                shift == (|o: OwnerView| o.promoted(level)),
                f <= self.files@.len(),
                self.files@.len() == old(self).files@.len(),
                self.file_ids == old(self).file_ids,
                self.next_modify_state_id == old(self).next_modify_state_id,
                forall|k: int|
                    0 <= k < self.files@.len() ==> (#[trigger] self.files@[k]).path == old(self).files@[k].path
                        && self.files@[k].handed == old(self).files@[k].handed,
                forall|k: int| 0 <= k < f ==> (#[trigger] self.files@[k])@.owners == old(self).files@[k]@.owners.map_values(shift),
                forall|k: int| f <= k < self.files@.len() ==> #[trigger] self.files@[k] == old(self).files@[k],
            decreases self.files@.len() - f,
        {
            let mut i: usize = 0;
            while i < self.files[f].mutation_owners.len()
                invariant
                    level == from_level,
                    from_level > i32::MIN,
                    shift == (|o: OwnerView| o.promoted(level)),
                    f < self.files@.len(),
                    self.files@.len() == old(self).files@.len(),
                    self.file_ids == old(self).file_ids,
                    self.next_modify_state_id == old(self).next_modify_state_id,
                    forall|k: int|
                        0 <= k < self.files@.len() ==> (#[trigger] self.files@[k]).path == old(self).files@[k].path
                            && self.files@[k].handed == old(self).files@[k].handed,
                    forall|k: int| 0 <= k < f ==> (#[trigger] self.files@[k])@.owners == old(self).files@[k]@.owners.map_values(shift),
                    forall|k: int| f < k < self.files@.len() ==> #[trigger] self.files@[k] == old(self).files@[k],
                    self.files@[f as int].mutation_owners@.len() == old(self).files@[f as int].mutation_owners@.len(),
                    i <= self.files@[f as int].mutation_owners@.len(),
                    forall|k: int|
                        0 <= k < i ==> (#[trigger] self.files@[f as int].mutation_owners@[k]).view(
                            self.files@[f as int].handed@,
                        ) == shift(
                            old(self).files@[f as int].mutation_owners@[k].view(
                                old(self).files@[f as int].handed@,
                            ),
                        ),
                    forall|k: int| i <= k < self.files@[f as int].mutation_owners@.len() ==> #[trigger]
                        self.files@[f as int].mutation_owners@[k] == old(self).files@[f as int].mutation_owners@[k],
                decreases self.files@[f as int].mutation_owners@.len() - i,
            {
                if self.files[f].mutation_owners[i].nest_level >= from_level {
                    self.files[f].mutation_owners[i].nest_level = from_level - 1;
                }
                i = i + 1;
            }
            assert(self.files@[f as int]@.owners =~= old(self).files@[f as int]@.owners.map_values(shift));
            f = f + 1;
        }
        proof {
            assert(self@.files =~= old(self)@.promoted(level).files);
            assert forall|k: int| 0 <= k < self@.files.len() implies (#[trigger] self@.files[k]).wf() by {
                assert(old(self)@.files[k].wf());
                let before = old(self)@.files[k].owners;
                let after = self@.files[k].owners;
                assert forall|i: int| 0 <= i < after.len() implies (#[trigger] after[i]).modify_state_id
                    == before[i].modify_state_id && after[i].positions == before[i].positions && after[i].handle
                    == before[i].handle by {}
            }
            lemma_same_paths(*old(self), *self);
        }
    }

    /// How many files are registered.
    pub fn registered_file_count(&self) -> (r: usize)
        ensures
            r == self@.files.len(),
    {
        self.files.len()
    }
}

/// A change of owners keeps the index of paths in step with the files.
proof fn lemma_same_paths(before: RelationRowRegistry, after: RelationRowRegistry)
    requires
        before.wf(),
        after@.wf(),
        after.file_ids == before.file_ids,
        after.files@.len() == before.files@.len(),
        forall|k: int| 0 <= k < after.files@.len() ==> (#[trigger] after.files@[k]).path@ == before.files@[k].path@,
    ensures
        after.wf(),
{
    assert forall|i: int| 0 <= i < after.files@.len() implies after.file_ids@.contains_key(
        (#[trigger] after.files@[i]).path@,
    ) && after.file_ids@[after.files@[i].path@].0 == i by {
        assert(before.file_ids@.contains_key(before.files@[i].path@));
    }
}

impl Default for RelationRowRegistry {
    fn default() -> (r: Self)
        ensures
            r.wf(),
            r@.files == Seq::<FileView>::empty(),
            r@.next_modify_state_id == 0,
    {
        RelationRowRegistry::new()
    }
}

fn unknown_file(file_id: IcebergFileId) -> (r: IcebergError)
    ensures
        r matches IcebergError::MetadataTracker(m) && m@ == "unknown Iceberg file ID "@ + decimal(
            file_id.0 as nat,
        ),
{
    let mut message = "unknown Iceberg file ID ".to_owned();
    let digits = decimal_text(file_id.raw() as u64);
    message.append(digits.as_str());
    IcebergError::MetadataTracker(message)
}

/// What a claim returns and leaves behind.
pub open spec fn claim_outcome(
    before: RegistryView,
    id: u64,
    file: int,
    position: u32,
    command_id: u32,
    nest_level: int,
    after: RegistryView,
    r: IcebergResult<RowMutationClaim>,
) -> bool {
    if file >= before.files.len() {
        &&& after == before
        &&& r matches Err(IcebergError::MetadataTracker(m))
        &&& m@ == "unknown Iceberg file ID "@ + decimal(file as nat)
    } else {
        let owners = before.files[file].owners;
        let handed = before.files[file].handed;
        if exists|k: int| holds(owners, k, position) && !owned_by(owners, k, id) {
            // Another modify state holds the row.
            &&& after == before
            &&& r matches Ok(RowMutationClaim::PreviouslyModified { modifying_command_id })
            &&& forall|k: int| #[trigger]
                holds(owners, k, position) && !owned_by(owners, k, id) ==> modifying_command_id
                    == owners[k].command_id
        } else if exists|k: int| owned_by(owners, k, id) {
            let own = choose|k: int| owned_by(owners, k, id);
            if owners[own].command_id != command_id {
                &&& after == before
                &&& r == Err::<RowMutationClaim, IcebergError>(
                    IcebergError::InvariantViolated("one Iceberg ModifyState observed multiple command IDs"),
                )
            } else if holds(owners, own, position) {
                &&& after == before
                &&& r == Ok::<RowMutationClaim, IcebergError>(
                    RowMutationClaim::PreviouslyModified { modifying_command_id: command_id },
                )
            } else {
                let positions = owners[own].positions.insert(position);
                &&& after == before.with_owners(
                    file,
                    owners.update(own, OwnerView { positions, ..owners[own] }),
                    handed.update(owners[own].handle, positions),
                )
                &&& r == Ok::<RowMutationClaim, IcebergError>(
                    RowMutationClaim::FirstTouch { new_file_positions: None },
                )
            }
        } else {
            let positions = Set::<u32>::empty().insert(position);
            &&& after == before.with_owners(
                file,
                owners.push(
                    OwnerView {
                        modify_state_id: id,
                        command_id,
                        nest_level,
                        handle: handed.len() as int,
                        positions,
                    },
                ),
                handed.push(positions),
            )
            &&& r == Ok::<RowMutationClaim, IcebergError>(
                RowMutationClaim::FirstTouch {
                    new_file_positions: Some(
                        OwnedRowPositions {
                            file_id: IcebergFileId(file as u32),
                            handle: handed.len() as usize,
                        },
                    ),
                },
            )
        }
    }
}

/// Keeping what every element satisfies keeps the whole sequence.
pub(crate) proof fn lemma_filter_all<A>(s: Seq<A>, keep: spec_fn(A) -> bool)
    requires
        forall|i: int| 0 <= i < s.len() ==> keep(#[trigger] s[i]),
    ensures
        s.filter(keep) == s,
    decreases s.len(),
{
    reveal(Seq::filter);
    if s.len() > 0 {
        lemma_filter_all(s.drop_last(), keep);
        assert(s =~= s.drop_last().push(s.last()));
    }
}

/// In a sound registry every row has at most one owner and every path one
/// identifier.
pub proof fn sound_registry_has_single_owners(registry: RelationRowRegistry)
    requires
        registry.wf(),
    ensures
        registry@.wf(),
{
}

/// Undoing and releasing levels leaves every file at its identifier.
pub proof fn identifiers_survive_levels(registry: RegistryView, level: int, file: int)
    requires
        0 <= file < registry.files.len(),
    ensures
        registry.rolled_back(level).files.len() == registry.files.len(),
        registry.rolled_back(level).files[file].path == registry.files[file].path,
        registry.promoted(level).files.len() == registry.files.len(),
        registry.promoted(level).files[file].path == registry.files[file].path,
        registry.rolled_back(level).next_modify_state_id == registry.next_modify_state_id,
        registry.promoted(level).next_modify_state_id == registry.next_modify_state_id,
{
}

/// Rows changed in a released level survive the undoing of a later level of
/// the same depth.
pub proof fn released_rows_survive_sibling_rollback(registry: RegistryView, level: int)
    ensures
        registry.promoted(level).rolled_back(level) == registry.promoted(level),
{
    let released = registry.promoted(level);
    let keep = |o: OwnerView| o.nest_level < level;
    assert forall|f: int| 0 <= f < released.files.len() implies (
    #[trigger] released.files[f]).owners.filter(keep) == released.files[f].owners by {
        lemma_filter_all(released.files[f].owners, keep);
    }
    assert(released.rolled_back(level).files =~= released.files);
}

/// After a level is undone, every row that still has an owner was changed
/// outside that level.
pub proof fn rollback_frees_rows(registry: RegistryView, level: int, file: int, owner: int)
    requires
        0 <= file < registry.files.len(),
        0 <= owner < registry.rolled_back(level).files[file].owners.len(),
    ensures
        registry.rolled_back(level).files[file].owners[owner].nest_level < level,
        registry.files[file].owners.contains(registry.rolled_back(level).files[file].owners[owner]),
{
    let keep = |o: OwnerView| o.nest_level < level;
    let owners = registry.files[file].owners;
    owners.lemma_filter_pred(keep, owner);
    assert(owners.filter(keep).contains(owners.filter(keep)[owner]));
    owners.lemma_filter_contains_rev(keep, owners.filter(keep)[owner]);
}

/// What happens to the files and row owners of a relation.
#[allow(inconsistent_fields)]
pub enum RegistryEvent {
    /// A path is given its identifier.
    Register { path: Seq<char> },
    /// The identity of a modify state is allocated.
    Begin,
    /// A row is claimed at a savepoint level, with a result.
    Claim {
        id: u64,
        file: int,
        position: u32,
        command_id: u32,
        nest_level: int,
        result: IcebergResult<RowMutationClaim>,
    },
    /// The savepoints at a level or deeper are undone.
    Rollback { level: int },
    /// The savepoints at a level or deeper are released.
    Release { level: int },
}

/// Whether an event takes a registry from one state to another.
pub open spec fn registry_takes(before: RegistryView, event: RegistryEvent, after: RegistryView) -> bool {
    match event {
        RegistryEvent::Register { path } => after == before || after == (RegistryView {
            files: before.files.push(FileView { path, owners: Seq::empty(), handed: Seq::empty() }),
            ..before
        }),
        RegistryEvent::Begin => after.files == before.files,
        RegistryEvent::Claim { id, file, position, command_id, nest_level, result } => claim_outcome(
            before,
            id,
            file,
            position,
            command_id,
            nest_level,
            after,
            result,
        ),
        RegistryEvent::Rollback { level } => after == before.rolled_back(level),
        RegistryEvent::Release { level } => after == before.promoted(level),
    }
}

/// A registry in the course of events: its state before each event and after
/// the last.
pub open spec fn is_registry_course(states: Seq<RegistryView>, events: Seq<RegistryEvent>) -> bool {
    &&& states.len() == events.len() + 1
    &&& forall|i: int|
        0 <= i < events.len() ==> registry_takes(#[trigger] states[i], events[i], states[i + 1])
}

/// Whether an event happens inside a savepoint at `level` that began with some
/// row owners, and leaves it open: a modify state that owned no rows of the file
/// claims one there or deeper, or a deeper savepoint ends.
pub open spec fn is_registry_event_inside(start: RegistryView, event: RegistryEvent, level: int) -> bool {
    match event {
        RegistryEvent::Claim { id, file, nest_level, .. } => {
            &&& 0 <= file
            &&& nest_level >= level
            &&& file < start.files.len() ==> forall|k: int| !#[trigger] owned_by(
                start.files[file].owners,
                k,
                id,
            )
        },
        RegistryEvent::Rollback { level: ended } => ended > level,
        RegistryEvent::Release { level: ended } => ended > level,
        _ => true,
    }
}

/// How many owners a file had at the start.
spec fn owners_at_start(start: RegistryView, file: int) -> nat {
    if file < start.files.len() {
        start.files[file].owners.len()
    } else {
        0
    }
}

/// Whether every file still has its owners of the start, followed by owners at
/// `level` or deeper only.
spec fn holds_owners(start: RegistryView, now: RegistryView, level: int) -> bool {
    &&& now.files.len() >= start.files.len()
    &&& forall|f: int|
        0 <= f < start.files.len() ==> (#[trigger] now.files[f]).path == start.files[f].path
    &&& forall|f: int|
        0 <= f < now.files.len() ==> (#[trigger] now.files[f]).owners.len() >= owners_at_start(start, f)
    &&& forall|f: int, i: int|
        #![trigger now.files[f].owners[i]]
        0 <= f < now.files.len() && 0 <= i < owners_at_start(start, f) ==> now.files[f].owners[i]
            == start.files[f].owners[i]
    &&& forall|f: int, i: int|
        #![trigger now.files[f].owners[i]]
        0 <= f < now.files.len() && owners_at_start(start, f) <= i < now.files[f].owners.len()
            ==> now.files[f].owners[i].nest_level >= level
}

/// Keeping a beginning whole keeps it in its place; what follows it comes from
/// behind it.
proof fn lemma_filter_beginning<A>(s: Seq<A>, k: int, keep: spec_fn(A) -> bool)
    requires
        0 <= k <= s.len(),
        forall|i: int| 0 <= i < k ==> keep(#[trigger] s[i]),
    ensures
        s.filter(keep).len() >= k,
        forall|i: int| 0 <= i < k ==> #[trigger] s.filter(keep)[i] == s[i],
        forall|i: int|
            k <= i < s.filter(keep).len() ==> exists|j: int|
                k <= j < s.len() && #[trigger] s[j] == #[trigger] s.filter(keep)[i],
        (forall|i: int| k <= i < s.len() ==> !keep(#[trigger] s[i])) ==> s.filter(keep).len() == k,
    decreases s.len(),
{
    reveal(Seq::filter);
    if s.len() > k {
        let shorter = s.drop_last();
        assert forall|i: int| 0 <= i < k implies keep(#[trigger] shorter[i]) by {
            assert(shorter[i] == s[i]);
        }
        lemma_filter_beginning(shorter, k, keep);
        let earlier = shorter.filter(keep);
        assert forall|i: int| k <= i < s.filter(keep).len() implies exists|j: int|
            k <= j < s.len() && #[trigger] s[j] == #[trigger] s.filter(keep)[i] by {
            if i < earlier.len() {
                assert(s.filter(keep)[i] == earlier[i]);
                let j = choose|j: int| k <= j < shorter.len() && #[trigger] shorter[j] == earlier[i];
                assert(s[j] == shorter[j]);
            } else {
                assert(s[s.len() - 1] == s.filter(keep)[i]);
            }
        }
        if forall|i: int| k <= i < s.len() ==> !keep(#[trigger] s[i]) {
            assert(!keep(s[s.len() - 1]));
            assert forall|i: int| k <= i < shorter.len() implies !keep(#[trigger] shorter[i]) by {
                assert(shorter[i] == s[i]);
            }
        }
    } else {
        lemma_filter_all(s, keep);
    }
}

proof fn lemma_event_holds_owners(
    start: RegistryView,
    before: RegistryView,
    event: RegistryEvent,
    after: RegistryView,
    level: int,
)
    requires
        forall|f: int, i: int|
            #![trigger start.files[f].owners[i]]
            0 <= f < start.files.len() && 0 <= i < start.files[f].owners.len()
                ==> start.files[f].owners[i].nest_level < level,
        holds_owners(start, before, level),
        registry_takes(before, event, after),
        is_registry_event_inside(start, event, level),
    ensures
        holds_owners(start, after, level),
{
    match event {
        RegistryEvent::Claim { id, file, position, command_id, nest_level, result } => {
            if file < before.files.len() {
                let owners = before.files[file].owners;
                let k = owners_at_start(start, file) as int;
                assert forall|i: int| 0 <= i < k implies !#[trigger] owned_by(owners, i, id) by {
                    assert(owners[i] == start.files[file].owners[i]);
                    assert(!owned_by(start.files[file].owners, i, id));
                }
                if after != before {
                    let now = after.files[file].owners;
                    if exists|i: int| owned_by(owners, i, id) {
                        let own = choose|i: int| owned_by(owners, i, id);
                        assert(own >= k);
                        assert(now.len() == owners.len());
                        assert forall|i: int| 0 <= i < now.len() implies (#[trigger] now[i]).nest_level
                            == owners[i].nest_level && (i < k ==> now[i] == owners[i]) by {}
                    } else {
                        assert(now.len() == owners.len() + 1);
                        assert forall|i: int| 0 <= i < owners.len() implies #[trigger] now[i] == owners[i] by {}
                    }
                }
                assert forall|f: int| 0 <= f < after.files.len() && f != file implies (
                #[trigger] after.files[f]) == before.files[f] by {}
            }
        },
        RegistryEvent::Rollback { level: ended } => {
            let keep = |o: OwnerView| o.nest_level < ended;
            assert forall|f: int| 0 <= f < after.files.len() implies {
                let was = before.files[f].owners;
                let now = (#[trigger] after.files[f]).owners;
                let k = owners_at_start(start, f) as int;
                &&& after.files[f].path == before.files[f].path
                &&& now.len() >= k
                &&& forall|i: int| 0 <= i < k ==> #[trigger] now[i] == was[i]
                &&& forall|i: int| k <= i < now.len() ==> (#[trigger] now[i]).nest_level >= level
            } by {
                let was = before.files[f].owners;
                let now = after.files[f].owners;
                let k = owners_at_start(start, f) as int;
                assert forall|i: int| 0 <= i < k implies keep(#[trigger] was[i]) by {
                    assert(before.files[f].owners[i] == start.files[f].owners[i]);
                }
                lemma_filter_beginning(was, k, keep);
                assert(now == was.filter(keep));
                assert forall|i: int| k <= i < now.len() implies (#[trigger] now[i]).nest_level >= level by {
                    let j = choose|j: int| k <= j < was.len() && #[trigger] was[j] == was.filter(keep)[i];
                    assert(before.files[f].owners[j].nest_level >= level);
                }
            }
            assert forall|f: int, i: int|
                #![trigger after.files[f].owners[i]]
                0 <= f < after.files.len() && 0 <= i < owners_at_start(start, f) implies after.files[f].owners[i]
                == start.files[f].owners[i] by {
                assert(before.files[f].owners[i] == start.files[f].owners[i]);
            }
        },
        RegistryEvent::Release { level: ended } => {
            assert forall|f: int, i: int|
                #![trigger after.files[f].owners[i]]
                0 <= f < after.files.len() && 0 <= i < after.files[f].owners.len() implies after.files[f].owners[i]
                == before.files[f].owners[i].promoted(ended) by {}
            assert forall|f: int| 0 <= f < after.files.len() implies (#[trigger] after.files[f]).owners.len()
                == before.files[f].owners.len() && after.files[f].path == before.files[f].path by {}
        },
        RegistryEvent::Register { path } => {
            assert forall|f: int| 0 <= f < before.files.len() implies #[trigger] after.files[f]
                == before.files[f] by {}
        },
        RegistryEvent::Begin => {},
    }
}

proof fn lemma_course_holds_owners(
    states: Seq<RegistryView>,
    events: Seq<RegistryEvent>,
    level: int,
    n: int,
)
    requires
        is_registry_course(states, events),
        forall|f: int, i: int|
            #![trigger states[0].files[f].owners[i]]
            0 <= f < states[0].files.len() && 0 <= i < states[0].files[f].owners.len()
                ==> states[0].files[f].owners[i].nest_level < level,
        forall|i: int|
            0 <= i < events.len() ==> is_registry_event_inside(states[0], #[trigger] events[i], level),
        0 <= n <= events.len(),
    ensures
        holds_owners(states[0], states[n], level),
    decreases n,
{
    if n > 0 {
        lemma_course_holds_owners(states, events, level, n - 1);
        assert(registry_takes(states[n - 1], events[n - 1], states[n]));
        assert(is_registry_event_inside(states[0], events[n - 1], level));
        lemma_event_holds_owners(states[0], states[n - 1], events[n - 1], states[n], level);
    }
}

/// Undoing a savepoint gives every file the row owners that it had when the
/// savepoint began, whatever was claimed in it, and whatever deeper savepoints
/// were opened, undone and released. Files that were registered in it have none.
pub proof fn undone_savepoints_restore_row_owners(
    states: Seq<RegistryView>,
    events: Seq<RegistryEvent>,
    level: int,
    file: int,
)
    requires
        is_registry_course(states, events),
        forall|f: int, i: int|
            #![trigger states[0].files[f].owners[i]]
            0 <= f < states[0].files.len() && 0 <= i < states[0].files[f].owners.len()
                ==> states[0].files[f].owners[i].nest_level < level,
        forall|i: int|
            0 <= i < events.len() ==> is_registry_event_inside(states[0], #[trigger] events[i], level),
        0 <= file < states.last().files.len(),
    ensures
        states.last().rolled_back(level).files.len() == states.last().files.len(),
        states.last().files.len() >= states[0].files.len(),
        file < states[0].files.len() ==> states.last().rolled_back(level).files[file].owners
            == states[0].files[file].owners && states.last().rolled_back(level).files[file].path
            == states[0].files[file].path,
        file >= states[0].files.len() ==> states.last().rolled_back(level).files[file].owners.len() == 0,
{
    lemma_course_holds_owners(states, events, level, events.len() as int);
    let start = states[0];
    let last = states.last();
    let keep = |o: OwnerView| o.nest_level < level;
    let owners = last.files[file].owners;
    let k = owners_at_start(start, file) as int;
    assert forall|i: int| 0 <= i < k implies keep(#[trigger] owners[i]) by {
        assert(last.files[file].owners[i] == start.files[file].owners[i]);
    }
    assert forall|i: int| k <= i < owners.len() implies !keep(#[trigger] owners[i]) by {
        assert(last.files[file].owners[i].nest_level >= level);
    }
    lemma_filter_beginning(owners, k, keep);
    let left = last.rolled_back(level).files[file].owners;
    assert(left == owners.filter(keep));
    if file < start.files.len() {
        assert forall|i: int| 0 <= i < k implies #[trigger] left[i] == start.files[file].owners[i] by {
            assert(last.files[file].owners[i] == start.files[file].owners[i]);
        }
        assert(left =~= start.files[file].owners);
    }
}

/// Positions that were handed out stay under their handle when levels are
/// undone and released.
pub proof fn handed_positions_survive_levels(registry: RegistryView, level: int, file: int)
    requires
        0 <= file < registry.files.len(),
    ensures
        registry.rolled_back(level).files[file].handed == registry.files[file].handed,
        registry.promoted(level).files[file].handed == registry.files[file].handed,
{
}

/// A claim takes no position from any handle. A row that was free is under a
/// handle afterwards: one that is handed out with it, or the one that its
/// modify state was given before.
pub proof fn claimed_rows_are_handed_out(
    before: RegistryView,
    id: u64,
    file: int,
    position: u32,
    command_id: u32,
    level: int,
    after: RegistryView,
    r: IcebergResult<RowMutationClaim>,
)
    requires
        before.wf(),
        0 <= file < before.files.len(),
        before.files[file].handed.len() <= usize::MAX,
        claim_outcome(before, id, file, position, command_id, level, after, r),
    ensures
        after.files.len() == before.files.len(),
        forall|f: int, h: int|
            #![trigger after.files[f].handed[h]]
            0 <= f < before.files.len() && 0 <= h < before.files[f].handed.len() ==> h
                < after.files[f].handed.len() && before.files[f].handed[h].subset_of(
                after.files[f].handed[h],
            ),
        r matches Ok(RowMutationClaim::FirstTouch { new_file_positions: Some(owned) }) ==> owned.file_id.0
            == file && owned.handle == before.files[file].handed.len() && after.files[file].handed[owned.handle as int]
            == Set::<u32>::empty().insert(position),
        r matches Ok(RowMutationClaim::FirstTouch { new_file_positions: None }) ==> exists|k: int| #[trigger]
            owned_by(before.files[file].owners, k, id)
                && after.files[file].handed[before.files[file].owners[k].handle]
                == before.files[file].handed[before.files[file].owners[k].handle].insert(position),
{
    assert(before.files[file].wf());
}

/// A row that was claimed is reported to whoever claims it next.
pub proof fn claimed_row_is_reported(
    before: RegistryView,
    id: u64,
    file: int,
    position: u32,
    command_id: u32,
    level: int,
    middle: RegistryView,
    first: IcebergResult<RowMutationClaim>,
    other_id: u64,
    other_command: u32,
    other_level: int,
    after: RegistryView,
    second: IcebergResult<RowMutationClaim>,
)
    requires
        before.wf(),
        middle.wf(),
        0 <= file < before.files.len(),
        claim_outcome(before, id, file, position, command_id, level, middle, first),
        first matches Ok(RowMutationClaim::FirstTouch { .. }),
        claim_outcome(middle, other_id, file, position, other_command, other_level, after, second),
        other_id == id ==> other_command == command_id,
    ensures
        second == Ok::<RowMutationClaim, IcebergError>(
            RowMutationClaim::PreviouslyModified { modifying_command_id: command_id },
        ),
        after == middle,
{
    let owners = before.files[file].owners;
    let grown = middle.files[file].owners;
    let own = if exists|k: int| owned_by(owners, k, id) {
        choose|k: int| owned_by(owners, k, id)
    } else {
        owners.len() as int
    };
    assert(middle.files[file].wf());
    assert(holds(grown, own, position) && owned_by(grown, own, id) && grown[own].command_id == command_id);
    assert forall|k: int| #[trigger] holds(grown, k, position) implies k == own by {}
    if other_id != id {
        assert(!owned_by(grown, own, other_id));
    } else {
        let mine = choose|k: int| owned_by(grown, k, id);
        assert(mine == own);
        assert forall|k: int| holds(grown, k, position) implies owned_by(grown, k, id) by {}
    }
}

/// A row that nobody holds can be claimed: by a modify state that owns no rows
/// of the file, and by one that does and acts for the same command.
pub proof fn free_rows_can_be_claimed(
    before: RegistryView,
    id: u64,
    file: int,
    position: u32,
    command_id: u32,
    level: int,
    after: RegistryView,
    r: IcebergResult<RowMutationClaim>,
)
    requires
        before.wf(),
        0 <= file < before.files.len(),
        claim_outcome(before, id, file, position, command_id, level, after, r),
        forall|k: int| !#[trigger] holds(before.files[file].owners, k, position),
        forall|k: int| #[trigger]
            owned_by(before.files[file].owners, k, id) ==> before.files[file].owners[k].command_id
                == command_id,
    ensures
        r matches Ok(RowMutationClaim::FirstTouch { .. }),
        exists|k: int| #[trigger]
            owned_by(after.files[file].owners, k, id) && holds(after.files[file].owners, k, position)
                && after.files[file].owners[k].command_id == command_id,
        forall|f: int| 0 <= f < before.files.len() && f != file ==> #[trigger] after.files[f]
            == before.files[f],
{
    let owners = before.files[file].owners;
    let now = after.files[file].owners;
    if exists|k: int| owned_by(owners, k, id) {
        let own = choose|k: int| owned_by(owners, k, id);
        assert(owned_by(now, own, id) && holds(now, own, position));
    } else {
        assert(owned_by(now, owners.len() as int, id) && holds(now, owners.len() as int, position));
    }
}

/// A row that is claimed for the first time inside a savepoint belongs to its
/// level: undoing the level frees it.
pub proof fn rows_claimed_in_a_level_are_freed_with_it(
    before: RegistryView,
    id: u64,
    file: int,
    position: u32,
    command_id: u32,
    level: int,
    after: RegistryView,
    r: IcebergResult<RowMutationClaim>,
    k: int,
)
    requires
        before.wf(),
        0 <= file < before.files.len(),
        claim_outcome(before, id, file, position, command_id, level, after, r),
        r matches Ok(RowMutationClaim::FirstTouch { new_file_positions: Some(_) }),
        0 <= k < after.files[file].owners.len(),
        after.files[file].owners[k].positions.contains(position),
    ensures
        after.files[file].owners[k].nest_level == level,
        after.files[file].owners[k].modify_state_id == id,
{
    let owners = before.files[file].owners;
    if k < owners.len() {
        assert(after.files[file].owners[k] == owners[k]);
        assert(holds(owners, k, position));
        assert(!owned_by(owners, k, id));
    }
}

} // verus!
