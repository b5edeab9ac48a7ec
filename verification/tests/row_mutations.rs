use pg_iceberg_am::catalog::row_mutations::{
    ICEBERG_FILE_ID_BITS, IcebergFileId, MAX_ICEBERG_FILES, ModifyStateId, OwnedRowPositions,
    RelationRowRegistry, RowMutationClaim,
};
use pg_iceberg_am::engine::row_identity::{
    FILE_MASK, IcebergRowIdentity, ItemPointer, MAX_POSITION, TRIGGER_ROW_BLOCK_BASE,
};
use pg_iceberg_am::error::IcebergError;

#[test]
fn file_ids_are_stable_and_not_reused_after_rollback() {
    let mut registry = RelationRowRegistry::default();
    let first = registry.register_file("data/a.parquet").unwrap();
    let second = registry.register_file("data/b.parquet").unwrap();
    registry.rollback_to_level(2);

    assert_eq!(registry.register_file("data/a.parquet").unwrap(), first);
    assert_eq!(registry.register_file("data/b.parquet").unwrap(), second);
    assert_eq!(registry.register_file("data/c.parquet").unwrap().raw(), 2);
    assert_eq!(registry.registered_file_count(), 3);
}

#[test]
fn file_registry_enforces_the_17_bit_ctid_limit() {
    let mut registry = RelationRowRegistry::default();
    for file in 0..MAX_ICEBERG_FILES {
        registry.register_file(&format!("already-registered-{file}.parquet")).unwrap();
    }
    assert!(registry.register_file("overflow.parquet").is_err());
}

#[test]
fn owner_bitmap_attributes_duplicates_to_first_command() {
    let mut registry = RelationRowRegistry::default();
    let file = registry.register_file("data/a.parquet").unwrap();
    let first_owner = registry.begin_modify_state().unwrap();
    let second_owner = registry.begin_modify_state().unwrap();

    let first = registry.claim_at_level(first_owner, file, 7, 10, 1).unwrap();
    assert!(matches!(first, RowMutationClaim::FirstTouch { new_file_positions: Some(_) }));
    assert!(matches!(
        registry.claim_at_level(first_owner, file, 8, 10, 1).unwrap(),
        RowMutationClaim::FirstTouch { new_file_positions: None }
    ));
    assert!(matches!(
        registry.claim_at_level(first_owner, file, 7, 10, 1).unwrap(),
        RowMutationClaim::PreviouslyModified { modifying_command_id: 10 }
    ));
    assert!(matches!(
        registry.claim_at_level(second_owner, file, 7, 11, 1).unwrap(),
        RowMutationClaim::PreviouslyModified { modifying_command_id: 10 }
    ));
}

#[test]
fn sibling_owners_can_modify_different_rows_in_one_file() {
    let mut registry = RelationRowRegistry::default();
    let file = registry.register_file("data/a.parquet").unwrap();
    let first_owner = registry.begin_modify_state().unwrap();
    let second_owner = registry.begin_modify_state().unwrap();

    registry.claim_at_level(first_owner, file, 7, 10, 1).unwrap();
    assert!(matches!(
        registry.claim_at_level(second_owner, file, 8, 11, 1).unwrap(),
        RowMutationClaim::FirstTouch { .. }
    ));
}

#[test]
fn subtransaction_abort_releases_owner_bitmap_but_keeps_file_id() {
    let mut registry = RelationRowRegistry::default();
    let file = registry.register_file("data/a.parquet").unwrap();
    let aborted_owner = registry.begin_modify_state().unwrap();
    registry.claim_at_level(aborted_owner, file, 7, 10, 2).unwrap();
    registry.rollback_to_level(2);

    let later_owner = registry.begin_modify_state().unwrap();
    assert!(matches!(
        registry.claim_at_level(later_owner, file, 7, 11, 1).unwrap(),
        RowMutationClaim::FirstTouch { .. }
    ));
    assert_eq!(registry.register_file("data/a.parquet").unwrap(), file);
}

#[test]
fn released_owner_survives_sibling_abort() {
    let mut registry = RelationRowRegistry::default();
    let file = registry.register_file("data/a.parquet").unwrap();
    let released_owner = registry.begin_modify_state().unwrap();
    registry.claim_at_level(released_owner, file, 7, 10, 2).unwrap();
    registry.promote_to_level(2);

    let aborted_owner = registry.begin_modify_state().unwrap();
    registry.claim_at_level(aborted_owner, file, 8, 11, 2).unwrap();
    registry.rollback_to_level(2);

    let later_owner = registry.begin_modify_state().unwrap();
    assert!(matches!(
        registry.claim_at_level(later_owner, file, 7, 12, 1).unwrap(),
        RowMutationClaim::PreviouslyModified { modifying_command_id: 10 }
    ));
    assert!(matches!(
        registry.claim_at_level(later_owner, file, 8, 12, 1).unwrap(),
        RowMutationClaim::FirstTouch { .. }
    ));
}

#[test]
fn claimed_rows_are_owned() {
    let mut registry = RelationRowRegistry::default();
    let file = registry.register_file("data/a.parquet").unwrap();
    let owner = registry.begin_modify_state().unwrap();
    let owned = handed(registry.claim_at_level(owner, file, 7, 10, 1).unwrap());
    assert_eq!(rows(&registry, owned), vec![7]);
    registry.claim_at_level(owner, file, 3, 10, 1).unwrap();
    assert_eq!(rows(&registry, owned), vec![3, 7]);
    assert_eq!(registry.file_path(file).unwrap(), "data/a.parquet");

    let forged = OwnedRowPositions { handle: 1, ..owned };
    assert_eq!(
        registry.owned_positions(forged).unwrap_err(),
        IcebergError::InvariantViolated(
            "Iceberg row positions were not handed out by this registry"
        )
    );
}

fn handed(claim: RowMutationClaim) -> OwnedRowPositions {
    match claim {
        RowMutationClaim::FirstTouch { new_file_positions: Some(owned) } => owned,
        other => panic!("unexpected {other:?}"),
    }
}

fn rows(registry: &RelationRowRegistry, owned: OwnedRowPositions) -> Vec<u32> {
    registry.owned_positions(owned).unwrap().iter().collect()
}

#[test]
fn handed_out_rows_stay_when_their_claims_are_undone() {
    let mut registry = RelationRowRegistry::default();
    let file = registry.register_file("data/a.parquet").unwrap();
    let owner = registry.begin_modify_state().unwrap();
    let other = registry.begin_modify_state().unwrap();
    let kept = handed(registry.claim_at_level(other, file, 1, 9, 1).unwrap());
    let undone = handed(registry.claim_at_level(owner, file, 7, 10, 2).unwrap());
    registry.claim_at_level(owner, file, 8, 10, 2).unwrap();
    registry.rollback_to_level(2);
    assert_eq!(rows(&registry, undone), vec![7, 8]);

    // The same modify state is handed other positions when it claims again.
    let again = handed(registry.claim_at_level(owner, file, 8, 11, 2).unwrap());
    registry.claim_at_level(other, file, 2, 9, 1).unwrap();
    assert_ne!(again, undone);
    assert_eq!(rows(&registry, again), vec![8]);
    assert_eq!(rows(&registry, undone), vec![7, 8]);
    assert_eq!(rows(&registry, kept), vec![1, 2]);
}

#[test]
fn unknown_files_are_refused() {
    let mut registry = RelationRowRegistry::default();
    let unknown = IcebergFileId::from_raw(3);
    let expected = IcebergError::MetadataTracker("unknown Iceberg file ID 3".to_owned());
    assert_eq!(registry.file_path(unknown).unwrap_err(), expected);
    assert_eq!(
        registry.claim_at_level(ModifyStateId(0), unknown, 1, 1, 1).unwrap_err(),
        expected
    );
}

#[test]
fn file_id_accessors_agree() {
    let id = IcebergFileId::from_raw(17);
    assert_eq!(id.raw(), 17);
    assert_eq!(id.index(), 17);
}

#[test]
fn synthetic_ctid_round_trips_boundaries() {
    let cases = [
        (0, 0),
        (0, MAX_POSITION),
        (u32::try_from(FILE_MASK).unwrap(), 0),
        (u32::try_from(FILE_MASK).unwrap(), MAX_POSITION),
    ];
    for (file_id, position) in cases {
        let file_id = IcebergFileId::try_from_raw(file_id).unwrap();
        let tid = IcebergRowIdentity::encode(file_id, position).unwrap();
        assert_ne!(tid.offset, 0);
        assert!(tid.block_number < TRIGGER_ROW_BLOCK_BASE);
        let decoded = IcebergRowIdentity::decode(&tid).unwrap();
        assert_eq!(decoded.file_id(), file_id);
        assert_eq!(u64::from(decoded.row_position()), position);
    }
}

#[test]
fn synthetic_ctid_rejects_out_of_range_values() {
    assert!(IcebergFileId::try_from_raw(1 << ICEBERG_FILE_ID_BITS).is_err());
    assert!(
        IcebergRowIdentity::encode(IcebergFileId::try_from_raw(0).unwrap(), MAX_POSITION + 1)
            .is_err()
    );
    assert!(IcebergRowIdentity::decode(&ItemPointer::default()).is_err());
    assert!(
        IcebergRowIdentity::decode(&ItemPointer {
            block_number: TRIGGER_ROW_BLOCK_BASE,
            offset: 1,
        })
        .is_err()
    );
}

#[test]
fn synthetic_ctid_has_a_fixed_layout() {
    // File 1, row 5: (1 << 30) + 5 = 16384 * 65535 + 16384 + 5.
    let tid = IcebergRowIdentity::encode(IcebergFileId::from_raw(1), 5).unwrap();
    assert_eq!((tid.block_number, tid.offset), (16384, 16390));
}
