//! Catalog-facing state of tables changed by a transaction.

pub mod action_log;
pub mod automatic_maintenance;
pub mod catalog_row;
pub mod row_mutations;
pub mod snapshot_delta;
pub mod schema_mapping;
pub mod schema_builder;
pub mod table_metadata;
pub mod schema_evolution;
pub mod table_properties;
pub mod vacuum;
pub mod table_state;
pub mod iceberg_metadata;
pub mod loaded_metadata;
pub mod metadata_table;
pub mod metadata_tracker;
pub mod commit;
pub mod table_lifecycle;
pub mod table_drop;
pub mod table_files;
pub mod iceberg_catalog;
