//! What a transaction reads of a table, and what it hands back to commit.

use vstd::prelude::*;

use crate::manifest::FormatVersion;
use crate::partition::StructType;
use crate::properties::Properties;
use crate::text::{parse_u64, parsed_u64};

verus! {

/// The branch that commits go to.
pub const MAIN_BRANCH: &'static str = "main";

/// The table property with the size that manifests are rewritten to.
pub const PROPERTY_COMMIT_MANIFEST_TARGET_SIZE_BYTES: &'static str =
    "commit.manifest.target-size-bytes";

/// The size that manifests are rewritten to where no property says otherwise.
pub const PROPERTY_COMMIT_MANIFEST_TARGET_SIZE_BYTES_DEFAULT: u64 = 8_388_608;

/// The table property with the number of changed partitions that a summary lists
/// one by one.
pub const PROPERTY_WRITE_PARTITION_SUMMARY_LIMIT: &'static str = "write.summary.partition-limit";

/// The number of changed partitions that a summary lists where no property says
/// otherwise.
pub const PROPERTY_WRITE_PARTITION_SUMMARY_LIMIT_DEFAULT: u64 = 0;

/// The kind of change that a snapshot made.
#[derive(Debug, Clone, Copy, PartialEq, Eq, Structural)]
pub enum Operation {
    Append,
    Replace,
    Overwrite,
    Delete,
}

/// What a snapshot says of the change that made it.
#[derive(Debug)]
pub struct Summary {
    pub operation: Operation,
    pub additional_properties: Properties,
}

impl Clone for Summary {
    fn clone(&self) -> (r: Summary)
        ensures
            r.operation == self.operation,
            r.additional_properties@ == self.additional_properties@,
    {
        Summary {
            operation: self.operation,
            additional_properties: self.additional_properties.clone(),
        }
    }
}

/// A state of the table.
#[derive(Debug)]
pub struct Snapshot {
    pub snapshot_id: i64,
    pub parent_snapshot_id: Option<i64>,
    pub sequence_number: i64,
    pub timestamp_ms: i64,
    /// Where the snapshot's manifest list is stored.
    pub manifest_list: String,
    pub summary: Summary,
    pub schema_id: Option<i32>,
    /// The first row id that the snapshot could assign, and how many it assigned.
    pub row_range: Option<(u64, u64)>,
}

/// What a transaction reads of a table.
#[derive(Debug)]
pub struct TableMetadata {
    pub uuid: u128,
    pub format_version: FormatVersion,
    pub location: String,
    pub properties: Properties,
    pub current_snapshot: Option<Snapshot>,
    /// The ids of all the table's snapshots.
    pub snapshot_ids: Vec<i64>,
    pub current_schema_id: i32,
    pub default_partition_spec_id: i32,
    pub default_partition_type: StructType,
    pub next_sequence_number: i64,
    pub next_row_id: u64,
}

/// The id of the table's current snapshot.
pub open spec fn current_id(metadata: TableMetadata) -> Option<i64> {
    match metadata.current_snapshot {
        Some(snapshot) => Some(snapshot.snapshot_id),
        None => None,
    }
}

/// The unsigned number that a property holds, or else the default.
pub open spec fn number_property(
    properties: Map<Seq<char>, Seq<char>>,
    key: Seq<char>,
    default: u64,
) -> u64 {
    if properties.contains_key(key) {
        match parsed_u64(properties[key]) {
            Some(number) => number,
            None => default,
        }
    } else {
        default
    }
}

impl TableMetadata {
    /// Whether the current snapshot is one of the table's snapshots.
    pub open spec fn well_formed(self) -> bool {
        current_id(self) matches Some(id) ==> self.snapshot_ids@.contains(id)
    }

    /// The id of the current snapshot.
    pub fn current_snapshot_id(&self) -> (r: Option<i64>)
        ensures
            r == current_id(*self),
    {
        match &self.current_snapshot {
            Some(snapshot) => Some(snapshot.snapshot_id),
            None => None,
        }
    }

    /// Reads an unsigned number out of the table's properties. A property that is
    /// not set, or that holds no such number, counts as the default.
    pub fn number_property_or(&self, key: &str, default: u64) -> (r: u64)
        ensures
            r == number_property(self.properties@, key@, default),
    {
        match self.properties.get(key) {
            Some(text) => match parse_u64(text.as_str()) {
                Some(number) => number,
                None => default,
            },
            None => default,
        }
    }
}

/// How long a reference is kept.
#[derive(Debug, Clone, Copy, PartialEq, Eq)]
pub enum SnapshotRetention {
    Branch {
        min_snapshots_to_keep: Option<i32>,
        max_snapshot_age_ms: Option<i64>,
        max_ref_age_ms: Option<i64>,
    },
    Tag { max_ref_age_ms: Option<i64> },
}

/// A named reference to a snapshot.
#[derive(Debug, Clone, Copy, PartialEq, Eq)]
pub struct SnapshotReference {
    pub snapshot_id: i64,
    pub retention: SnapshotRetention,
}

/// A change to be made to the table's metadata.
#[derive(Debug)]
pub enum TableUpdate {
    AddSnapshot { snapshot: Snapshot },
    SetSnapshotRef { ref_name: String, reference: SnapshotReference },
}

/// What must still hold of the table when the changes are made.
#[derive(Debug, Clone, PartialEq, Eq)]
pub enum TableRequirement {
    UuidMatch { uuid: u128 },
    RefSnapshotIdMatch { ref_name: String, snapshot_id: Option<i64> },
}

/// What an action hands to its transaction.
#[derive(Debug)]
pub struct ActionCommit {
    pub updates: Vec<TableUpdate>,
    pub requirements: Vec<TableRequirement>,
}

impl ActionCommit {
    /// Whether the action changes nothing.
    pub open spec fn is_empty(self) -> bool {
        self.updates@.len() == 0 && self.requirements@.len() == 0
    }

    /// An action that makes these changes under these requirements.
    pub fn new(updates: Vec<TableUpdate>, requirements: Vec<TableRequirement>) -> (r: ActionCommit)
        ensures
            r.updates == updates,
            r.requirements == requirements,
    {
        ActionCommit { updates, requirements }
    }
}

} // verus!
