//! What the access method reads of a table's metadata.

use vstd::prelude::*;

use vstd::hash_map::StringHashMap;

use crate::catalog::snapshot_delta::DataContentType;
use crate::text::{parse_u64, parsed_u64};

verus! {

/// Version of the table format.
#[derive(Debug, Clone, Copy, PartialEq, Eq, Structural)]
pub enum FormatVersion {
    V1,
    V2,
    V3,
}

impl FormatVersion {
    /// The name of the version.
    pub open spec fn name(self) -> Seq<char> {
        match self {
            FormatVersion::V1 => "v1"@,
            FormatVersion::V2 => "v2"@,
            FormatVersion::V3 => "v3"@,
        }
    }

    /// The name of the version.
    pub fn as_str(&self) -> (r: &'static str)
        ensures
            r@ == self.name(),
    {
        match self {
            FormatVersion::V1 => "v1",
            FormatVersion::V2 => "v2",
            FormatVersion::V3 => "v3",
        }
    }
}

/// Properties by name.
pub struct PropertyMap {
    map: StringHashMap<String>,
}

impl View for PropertyMap {
    type V = Map<Seq<char>, Seq<char>>;

    closed spec fn view(&self) -> Map<Seq<char>, Seq<char>> {
        self.map@.map_values(|v: String| v@)
    }
}

impl PropertyMap {
    /// No properties.
    pub fn new() -> (r: Self)
        ensures
            r@ == Map::<Seq<char>, Seq<char>>::empty(),
    {
        let r = PropertyMap { map: StringHashMap::new() };
        assert(r@ =~= Map::<Seq<char>, Seq<char>>::empty());
        r
    }

    /// Sets a property.
    pub fn set(&mut self, key: String, value: String)
        ensures
            final(self)@ == old(self)@.insert(key@, value@),
    {
        self.map.insert(key, value);
        assert(self@ =~= old(self)@.insert(key@, value@));
    }

    /// The value of a property.
    pub fn get(&self, key: &str) -> (r: Option<&String>)
        ensures
            match r {
                Some(value) => self@.contains_key(key@) && value@ == self@[key@],
                None => !self@.contains_key(key@),
            },
    {
        self.map.get(key)
    }
}

/// The current schema of a table.
#[derive(Debug, Clone, Copy, PartialEq, Eq, Structural)]
pub struct TableSchema {
    pub schema_id: i32,
    pub last_column_id: i32,
}

/// The current snapshot of a table: its identifier and summary.
pub struct SnapshotInfo {
    pub snapshot_id: i64,
    pub summary: PropertyMap,
}

/// Metadata of a table.
pub struct TableMetadata {
    pub format_version: FormatVersion,
    pub schema: TableSchema,
    pub properties: PropertyMap,
    pub current_snapshot: Option<SnapshotInfo>,
}

/// Which files a manifest lists.
#[derive(Debug, Clone, Copy, PartialEq, Eq, Structural)]
pub enum ManifestContentType {
    Data,
    Deletes,
}

/// One file of a manifest.
#[derive(Debug)]
pub struct ManifestEntry {
    pub alive: bool,
    pub content: DataContentType,
    pub file_path: String,
    pub record_count: u64,
    pub file_size_in_bytes: u64,
}

/// A manifest and its files.
#[derive(Debug)]
pub struct Manifest {
    pub content: ManifestContentType,
    pub entries: Vec<ManifestEntry>,
}

impl TableMetadata {
    /// The number that the current snapshot's summary gives for a key.
    pub open spec fn summary_number(self, key: Seq<char>) -> Option<u64> {
        match self.current_snapshot {
            Some(snapshot) => if snapshot.summary@.contains_key(key) {
                parsed_u64(snapshot.summary@[key])
            } else {
                None
            },
            None => None,
        }
    }

    /// Reads a number from the current snapshot's summary.
    pub fn summary_u64(&self, key: &str) -> (r: Option<u64>)
        ensures
            r == self.summary_number(key@),
    {
        match &self.current_snapshot {
            Some(snapshot) => match snapshot.summary.get(key) {
                Some(value) => parse_u64(value.as_str()),
                None => None,
            },
            None => None,
        }
    }
}

} // verus!
