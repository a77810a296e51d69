//! Manifests, their entries, and the data files that the entries list.

use vstd::prelude::*;

use crate::partition::Struct;

verus! {

/// The version of the table format that a table is written in.
#[derive(Debug, Clone, Copy, PartialEq, Eq, Structural)]
pub enum FormatVersion {
    V1,
    V2,
    V3,
}

/// What a data file holds.
#[derive(Debug, Clone, Copy, PartialEq, Eq, Structural)]
pub enum DataContentType {
    Data,
    PositionDeletes,
    EqualityDeletes,
}

/// What the files that a manifest lists hold.
#[derive(Debug, Clone, Copy, PartialEq, Eq, Structural)]
pub enum ManifestContentType {
    Data,
    Deletes,
}

/// How an entry stands to the snapshot that its manifest was written for.
#[derive(Debug, Clone, Copy, PartialEq, Eq, Structural)]
pub enum ManifestStatus {
    Existing,
    Added,
    Deleted,
}

/// A file of the table.
#[derive(Debug, Clone, PartialEq, Eq)]
pub struct DataFile {
    pub content: DataContentType,
    pub file_path: String,
    pub partition: Struct,
    pub partition_spec_id: i32,
    pub record_count: u64,
    pub file_size_in_bytes: u64,
    /// The id of the file's first row, where it is stored with the file.
    pub first_row_id: Option<i64>,
    /// The remaining fields (format, column metrics, bounds, split offsets),
    /// serialised. They are carried along unchanged.
    pub details: Vec<u8>,
}

/// A line of a manifest: a data file and its history.
#[derive(Debug, Clone, PartialEq, Eq)]
pub struct ManifestEntry {
    pub status: ManifestStatus,
    pub snapshot_id: Option<i64>,
    pub sequence_number: Option<i64>,
    pub file_sequence_number: Option<i64>,
    pub data_file: DataFile,
}

impl ManifestEntry {
    /// Added and existing entries list files that are part of the table.
    pub open spec fn alive(self) -> bool {
        self.status != ManifestStatus::Deleted
    }

    /// Whether the entry lists a file that is part of the table.
    pub fn is_alive(&self) -> (r: bool)
        ensures
            r == self.alive(),
    {
        match self.status {
            ManifestStatus::Added | ManifestStatus::Existing => true,
            ManifestStatus::Deleted => false,
        }
    }
}

/// A line of a manifest list: a manifest and its metrics.
#[derive(Debug, PartialEq, Eq)]
pub struct ManifestFile {
    pub manifest_path: String,
    pub manifest_length: i64,
    pub partition_spec_id: i32,
    pub content: ManifestContentType,
    pub sequence_number: i64,
    pub min_sequence_number: i64,
    pub added_snapshot_id: i64,
    pub added_files_count: Option<u32>,
    pub existing_files_count: Option<u32>,
    pub deleted_files_count: Option<u32>,
    pub added_rows_count: Option<u64>,
    pub existing_rows_count: Option<u64>,
    pub deleted_rows_count: Option<u64>,
    /// The id of the first row of the first entry that stores none of its own.
    pub first_row_id: Option<u64>,
    /// The remaining fields (partition summaries, key metadata), serialised.
    /// They are carried along unchanged.
    pub details: Vec<u8>,
}

/// A manifest file as a mathematical value.
#[verifier::ext_equal]
pub struct ManifestFileView {
    pub manifest_path: Seq<char>,
    pub manifest_length: i64,
    pub partition_spec_id: i32,
    pub content: ManifestContentType,
    pub sequence_number: i64,
    pub min_sequence_number: i64,
    pub added_snapshot_id: i64,
    pub added_files_count: Option<u32>,
    pub existing_files_count: Option<u32>,
    pub deleted_files_count: Option<u32>,
    pub added_rows_count: Option<u64>,
    pub existing_rows_count: Option<u64>,
    pub deleted_rows_count: Option<u64>,
    pub first_row_id: Option<u64>,
    pub details: Seq<u8>,
}

impl View for ManifestFile {
    type V = ManifestFileView;

    open spec fn view(&self) -> ManifestFileView {
        ManifestFileView {
            manifest_path: self.manifest_path@,
            manifest_length: self.manifest_length,
            partition_spec_id: self.partition_spec_id,
            content: self.content,
            sequence_number: self.sequence_number,
            min_sequence_number: self.min_sequence_number,
            added_snapshot_id: self.added_snapshot_id,
            added_files_count: self.added_files_count,
            existing_files_count: self.existing_files_count,
            deleted_files_count: self.deleted_files_count,
            added_rows_count: self.added_rows_count,
            existing_rows_count: self.existing_rows_count,
            deleted_rows_count: self.deleted_rows_count,
            first_row_id: self.first_row_id,
            details: self.details@,
        }
    }
}

impl Clone for ManifestFile {
    fn clone(&self) -> (r: ManifestFile)
        ensures
            r@ == self@,
    {
        let r = ManifestFile {
            manifest_path: self.manifest_path.clone(),
            manifest_length: self.manifest_length,
            partition_spec_id: self.partition_spec_id,
            content: self.content,
            sequence_number: self.sequence_number,
            min_sequence_number: self.min_sequence_number,
            added_snapshot_id: self.added_snapshot_id,
            added_files_count: self.added_files_count,
            existing_files_count: self.existing_files_count,
            deleted_files_count: self.deleted_files_count,
            added_rows_count: self.added_rows_count,
            existing_rows_count: self.existing_rows_count,
            deleted_rows_count: self.deleted_rows_count,
            first_row_id: self.first_row_id,
            details: self.details.clone(),
        };
        assert(r.details@ =~= self.details@);
        r
    }
}

/// The manifest files as mathematical values.
pub open spec fn manifest_views(manifests: Seq<ManifestFile>) -> Seq<ManifestFileView> {
    manifests.map_values(|m: ManifestFile| m@)
}

/// Whether a count says that there are such files. An unknown count may hide some.
pub open spec fn may_have(count: Option<u32>) -> bool {
    match count {
        Some(n) => n > 0,
        None => true,
    }
}

impl ManifestFile {
    /// Whether the manifest may list added files.
    pub fn has_added_files(&self) -> (r: bool)
        ensures
            r == may_have(self.added_files_count),
    {
        match self.added_files_count {
            Some(n) => n > 0,
            None => true,
        }
    }

    /// Whether the manifest may list existing files.
    pub fn has_existing_files(&self) -> (r: bool)
        ensures
            r == may_have(self.existing_files_count),
    {
        match self.existing_files_count {
            Some(n) => n > 0,
            None => true,
        }
    }
}

} // verus!
