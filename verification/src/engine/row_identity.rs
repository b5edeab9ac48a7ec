//! Synthetic row pointers that carry a physical row identity.

use vstd::prelude::*;

use crate::catalog::row_mutations::IcebergFileId;
use crate::error::{IcebergError, IcebergResult};

verus! {

/// First block number reserved for rows that only triggers see.
pub const TRIGGER_ROW_BLOCK_BASE: u32 = 0xC000_0000;

/// Bits of a row position.
pub const POSITION_BITS: u32 = 30;

/// Largest row position, 2^30 - 1.
pub const MAX_POSITION: u64 = 0x3FFF_FFFF;

/// Largest file identifier, 2^17 - 1.
pub const FILE_MASK: u64 = 0x1_FFFF;

/// First value that is no packed identity, 2^47.
pub const PAYLOAD_LIMIT: u64 = 0x8000_0000_0000;

/// Row offsets in one block, from 1 to this number.
pub const OFFSET_BASE: u64 = 65535;

/// A block number and a row offset in that block; offset 0 is no row.
#[derive(Debug, Clone, Copy, PartialEq, Eq, Structural)]
pub struct ItemPointer {
    pub block_number: u32,
    pub offset: u16,
}

impl Default for ItemPointer {
    fn default() -> (r: Self)
        ensures
            r == (ItemPointer { block_number: 0, offset: 0 }),
    {
        ItemPointer { block_number: 0, offset: 0 }
    }
}

/// A data file and a row position in it.
#[derive(Debug, Clone, Copy, PartialEq, Eq, Structural)]
pub struct IcebergRowIdentity {
    pub file_id: IcebergFileId,
    pub row_position: u32,
}

/// The number that packs a file identifier and a row position.
pub open spec fn packed(file_id: int, position: int) -> int {
    file_id * 0x4000_0000 + position
}

/// The pointer at which the packed number `payload` is stored.
pub open spec fn pointer_of(payload: int) -> (int, int) {
    (payload / 65535, payload % 65535 + 1)
}

/// The packed number stored at a pointer.
pub open spec fn payload_of(tid: ItemPointer) -> int {
    tid.block_number * 65535 + tid.offset - 1
}

/// Whether a pointer carries a row identity.
pub open spec fn carries_identity(tid: ItemPointer) -> bool {
    tid.offset != 0 && tid.block_number < TRIGGER_ROW_BLOCK_BASE && payload_of(tid) < PAYLOAD_LIMIT
}

impl IcebergRowIdentity {
    /// Pairs a file with a row position.
    pub fn new(file_id: IcebergFileId, row_position: u32) -> (r: Self)
        ensures
            r.file_id == file_id,
            r.row_position == row_position,
    {
        IcebergRowIdentity { file_id, row_position }
    }

    /// The data file.
    pub fn file_id(self) -> (r: IcebergFileId)
        ensures
            r == self.file_id,
    {
        self.file_id
    }

    /// The row position in the data file.
    pub fn row_position(self) -> (r: u32)
        ensures
            r == self.row_position,
    {
        self.row_position
    }

    /// Packs a file and a row position into a pointer below the trigger rows.
    pub fn encode(file_id: IcebergFileId, position: u64) -> (r: IcebergResult<ItemPointer>)
        requires
            file_id.0 <= FILE_MASK,
        ensures
            position > MAX_POSITION ==> r == Err::<ItemPointer, IcebergError>(
                IcebergError::RowIdentityLimitExceeded,
            ),
            position <= MAX_POSITION ==> r is Ok && (r->Ok_0.block_number as int, r->Ok_0.offset as int)
                == pointer_of(packed(file_id.0 as int, position as int))
                && carries_identity(r->Ok_0),
    {
        if position > MAX_POSITION {
            return Err(IcebergError::RowIdentityLimitExceeded);
        }
        let file: u64 = file_id.raw() as u64;
        let payload: u64 = (file << 30) | position;
        proof {
            assert((file << 30) | position == file * 0x4000_0000 + position
                && (file << 30) | position < 0x8000_0000_0000) by (bit_vector)
                requires
                    file <= 0x1_FFFF,
                    position <= 0x3FFF_FFFF,
            ;
        }
        let block_number: u32 = (payload / OFFSET_BASE) as u32;
        let offset: u16 = ((payload % OFFSET_BASE) + 1) as u16;
        Ok(ItemPointer { block_number, offset })
    }

    /// Unpacks the file and the row position that a pointer carries.
    pub fn decode(tid: &ItemPointer) -> (r: IcebergResult<Self>)
        ensures
            !carries_identity(*tid) ==> r == Err::<Self, IcebergError>(
                IcebergError::InvariantViolated("ctid is not an Iceberg physical row identity"),
            ),
            carries_identity(*tid) ==> r is Ok && r->Ok_0.file_id.0 <= FILE_MASK
                && r->Ok_0.row_position <= MAX_POSITION
                && packed(r->Ok_0.file_id.0 as int, r->Ok_0.row_position as int) == payload_of(*tid),
    {
        if tid.offset == 0 || tid.block_number >= TRIGGER_ROW_BLOCK_BASE {
            return Err(
                IcebergError::InvariantViolated("ctid is not an Iceberg physical row identity"),
            );
        }
        let payload: u64 = tid.block_number as u64 * OFFSET_BASE + (tid.offset - 1) as u64;
        if payload >= PAYLOAD_LIMIT {
            return Err(
                IcebergError::InvariantViolated("ctid is not an Iceberg physical row identity"),
            );
        }
        let file: u64 = (payload >> 30) & FILE_MASK;
        let position: u64 = payload & MAX_POSITION;
        proof {
            assert((payload >> 30) & 0x1_FFFF <= 0x1_FFFF && payload & 0x3FFF_FFFF <= 0x3FFF_FFFF
                && ((payload >> 30) & 0x1_FFFF) * 0x4000_0000 + (payload & 0x3FFF_FFFF) == payload)
                by (bit_vector)
                requires
                    payload < 0x8000_0000_0000,
            ;
        }
        Ok(IcebergRowIdentity::new(IcebergFileId::from_raw(file as u32), position as u32))
    }
}

/// Decoding the pointer of a file and a row position gives both back.
pub proof fn encode_then_decode(file_id: int, position: int, tid: ItemPointer, identity: IcebergRowIdentity)
    requires
        0 <= file_id <= FILE_MASK,
        0 <= position <= MAX_POSITION,
        (tid.block_number as int, tid.offset as int) == pointer_of(packed(file_id, position)),
        identity.file_id.0 <= FILE_MASK,
        identity.row_position <= MAX_POSITION,
        packed(identity.file_id.0 as int, identity.row_position as int) == payload_of(tid),
    ensures
        identity.file_id.0 == file_id,
        identity.row_position == position,
{
}

/// Encoding what a pointer carries gives that pointer back.
pub proof fn decode_then_encode(tid: ItemPointer, identity: IcebergRowIdentity)
    requires
        carries_identity(tid),
        packed(identity.file_id.0 as int, identity.row_position as int) == payload_of(tid),
    ensures
        pointer_of(packed(identity.file_id.0 as int, identity.row_position as int)) == (
            tid.block_number as int,
            tid.offset as int,
        ),
{
}

/// Distinct rows get distinct pointers.
pub proof fn pointers_are_distinct(file_a: int, position_a: int, file_b: int, position_b: int)
    requires
        0 <= file_a <= FILE_MASK,
        0 <= file_b <= FILE_MASK,
        0 <= position_a <= MAX_POSITION,
        0 <= position_b <= MAX_POSITION,
        pointer_of(packed(file_a, position_a)) == pointer_of(packed(file_b, position_b)),
    ensures
        file_a == file_b,
        position_a == position_b,
{
}

} // verus!
