//! The steps of a commit.
//!
//! A commit alternates between decisions and work on files. Each step takes what
//! came of the work before it, and says what is to be done next:
//!
//! - [`SnapshotProducer::begin_commit`]: open a manifest list; collect the metrics
//!   of the added data files; find the existing manifests to carry forward.
//! - [`CommitBegun::list_manifests`]: write a manifest for the added data files, if
//!   there are any.
//! - [`CommitListed::add_manifest`]: process the manifests.
//! - [`CommitProcessing::summarize`]: bring the totals of the summary up to date;
//!   write the manifests to the list, and close it.
//! - [`CommitFinishing::finish`]: hand the commit to the transaction.

use vstd::prelude::*;

use crate::identity::current_time_millis;
use crate::manifest::ManifestFile;
use crate::properties::Properties;
use crate::snapshot::{
    AddedManifest, ManifestListConfig, ProcessedManifests, SnapshotProducer, SummaryUpdate,
};
use crate::table::{
    current_id, ActionCommit, Operation, Snapshot, SnapshotReference, SnapshotRetention, Summary,
    TableRequirement, TableUpdate, MAIN_BRANCH,
};

verus! {

/// A commit whose manifest list is to be opened.
#[derive(Debug)]
pub struct CommitBegun<'a> {
    pub producer: SnapshotProducer<'a>,
    pub operation: Operation,
    /// Where the manifest list is stored.
    pub manifest_list: String,
}

/// A commit whose existing manifests are known.
#[derive(Debug)]
pub struct CommitListed<'a> {
    pub producer: SnapshotProducer<'a>,
    pub operation: Operation,
    pub manifest_list: String,
    pub added_files_summary: Properties,
    pub manifests: Vec<ManifestFile>,
    /// Whether a manifest is being written for added data files.
    pub awaits_added: bool,
}

/// A commit whose manifests are being processed. New manifests get their names
/// from its producer.
#[derive(Debug)]
pub struct CommitProcessing<'a> {
    pub producer: SnapshotProducer<'a>,
    pub operation: Operation,
    pub manifest_list: String,
    pub added_files_summary: Properties,
}

/// A commit whose manifests go into the manifest list.
#[derive(Debug)]
pub struct CommitFinishing<'a> {
    pub producer: SnapshotProducer<'a>,
    pub manifest_list: String,
}

/// What is to be done about the manifests of a commit before it is finished.
#[derive(Debug)]
pub struct ListWork {
    /// The summary whose totals are to be brought up to date.
    pub summary: SummaryUpdate,
    /// The manifests to write to the manifest list.
    pub manifests: Vec<ManifestFile>,
}

impl<'a> SnapshotProducer<'a> {
    /// Begins a commit.
    pub fn begin_commit(self, operation: Operation) -> (r: (ManifestListConfig, CommitBegun<'a>))
        ensures
            self.list_writer(r.0),
            r.1.producer == self,
            r.1.operation == operation,
            r.1.manifest_list@ == r.0.path@,
    {
        let config = self.manifest_list_writer();
        let manifest_list = config.path.clone();
        (config, CommitBegun { producer: self, operation, manifest_list })
    }
}

impl<'a> CommitBegun<'a> {
    /// Takes the manifests to carry forward, and asks for a manifest of the added
    /// data files, if there are any.
    pub fn list_manifests(self, added_files_summary: Properties, existing: Vec<ManifestFile>) -> (r:
        (Option<AddedManifest>, CommitListed<'a>))
        ensures
            match r.0 {
                Some(added) => self.producer.takes_added(added, r.1.producer),
                None => self.producer.added_data_files@.len() == 0 && r.1.producer == self.producer,
            },
            r.1.operation == self.operation,
            r.1.manifest_list == self.manifest_list,
            r.1.added_files_summary == added_files_summary,
            r.1.manifests == existing,
            r.1.awaits_added == (r.0 is Some),
    {
        let mut producer = self.producer;
        let added: Option<AddedManifest> = if producer.added_data_files.is_empty() {
            None
        } else {
            match producer.take_added_manifest() {
                Ok(added) => Some(added),
                Err(_) => None,
            }
        };
        let awaits_added = added.is_some();
        (
            added,
            CommitListed {
                producer,
                operation: self.operation,
                manifest_list: self.manifest_list,
                added_files_summary,
                manifests: existing,
                awaits_added,
            },
        )
    }
}

impl<'a> CommitListed<'a> {
    /// Takes the manifest of the added data files, and hands out all the manifests
    /// to be processed.
    pub fn add_manifest(self, added: Option<ManifestFile>) -> (r: (
        Vec<ManifestFile>,
        CommitProcessing<'a>,
    ))
        requires
            self.awaits_added == (added is Some),
        ensures
            r.0@ == match added {
                Some(manifest) => self.manifests@.push(manifest),
                None => self.manifests@,
            },
            r.1 == (CommitProcessing {
                producer: self.producer,
                operation: self.operation,
                manifest_list: self.manifest_list,
                added_files_summary: self.added_files_summary,
            }),
    {
        let mut manifests = self.manifests;
        if let Some(manifest) = added {
            manifests.push(manifest);
        }
        (
            manifests,
            CommitProcessing {
                producer: self.producer,
                operation: self.operation,
                manifest_list: self.manifest_list,
                added_files_summary: self.added_files_summary,
            },
        )
    }
}

impl<'a> CommitProcessing<'a> {
    /// Takes the processed manifests, and puts the summary together.
    pub fn summarize(self, processed: ProcessedManifests) -> (r: (ListWork, CommitFinishing<'a>))
        ensures
            r.0.manifests == processed.manifests,
            self.producer.summarizes(
                self.operation,
                self.added_files_summary@,
                processed.summary_properties@,
                r.0.summary,
            ),
            r.1 == (CommitFinishing {
                producer: self.producer,
                manifest_list: self.manifest_list,
            }),
    {
        let summary = self.producer.summary(
            self.operation,
            self.added_files_summary,
            processed.summary_properties,
        );
        (
            ListWork { summary, manifests: processed.manifests },
            CommitFinishing { producer: self.producer, manifest_list: self.manifest_list },
        )
    }
}

impl<'a> CommitFinishing<'a> {
    /// The rows that the snapshot assigned ids to, given the row id that the
    /// manifest list would assign next: where they start and how many they are.
    pub open spec fn row_range(self, next_row_id: Option<u64>) -> Option<(u64, u64)> {
        match next_row_id {
            Some(next) => Some(
                (self.producer.table.next_row_id, (next - self.producer.table.next_row_id) as u64),
            ),
            None => None,
        }
    }

    /// Whether this is the snapshot that the commit adds.
    pub open spec fn adds_snapshot(
        self,
        summary: Summary,
        next_row_id: Option<u64>,
        timestamp_ms: i64,
        snapshot: Snapshot,
    ) -> bool {
        snapshot == (Snapshot {
            snapshot_id: self.producer.snapshot_id,
            parent_snapshot_id: current_id(*self.producer.table),
            sequence_number: self.producer.table.next_sequence_number,
            timestamp_ms,
            manifest_list: self.manifest_list,
            summary,
            schema_id: Some(self.producer.table.current_schema_id),
            row_range: self.row_range(next_row_id),
        })
    }

    /// Whether this is the outcome of the commit: the new snapshot is added and
    /// the main branch set to it, provided that the table is still the same table
    /// and its main branch still where it was.
    pub open spec fn commits(
        self,
        summary: Summary,
        next_row_id: Option<u64>,
        timestamp_ms: i64,
        commit: ActionCommit,
    ) -> bool {
        &&& commit.updates@.len() == 2
        &&& commit.updates@[0] matches TableUpdate::AddSnapshot { snapshot }
        &&& self.adds_snapshot(summary, next_row_id, timestamp_ms, snapshot)
        &&& commit.updates@[1] matches TableUpdate::SetSnapshotRef { ref_name, reference }
        &&& ref_name@ == MAIN_BRANCH@
        &&& reference == (SnapshotReference {
            snapshot_id: self.producer.snapshot_id,
            retention: SnapshotRetention::Branch {
                min_snapshots_to_keep: None,
                max_snapshot_age_ms: None,
                max_ref_age_ms: None,
            },
        })
        &&& commit.requirements@.len() == 2
        &&& commit.requirements@[0] == (TableRequirement::UuidMatch {
            uuid: self.producer.table.uuid,
        })
        &&& commit.requirements@[1] matches TableRequirement::RefSnapshotIdMatch {
            ref_name: required_ref,
            snapshot_id,
        }
        &&& required_ref@ == MAIN_BRANCH@
        &&& snapshot_id == current_id(*self.producer.table)
    }

    /// Finishes the commit at a given time.
    pub fn finish_at(self, summary: Summary, next_row_id: Option<u64>, timestamp_ms: i64) -> (r:
        ActionCommit)
        requires
            next_row_id matches Some(next) ==> next >= self.producer.table.next_row_id,
        ensures
            self.commits(summary, next_row_id, timestamp_ms, r),
    {
        let table = self.producer.table;
        let snapshot_id = self.producer.snapshot_id;
        let row_range: Option<(u64, u64)> = match next_row_id {
            Some(next) => Some((table.next_row_id, next - table.next_row_id)),
            None => None,
        };
        let snapshot = Snapshot {
            snapshot_id,
            parent_snapshot_id: table.current_snapshot_id(),
            sequence_number: table.next_sequence_number,
            timestamp_ms,
            manifest_list: self.manifest_list,
            summary,
            schema_id: Some(table.current_schema_id),
            row_range,
        };
        let mut updates: Vec<TableUpdate> = Vec::new();
        updates.push(TableUpdate::AddSnapshot { snapshot });
        updates.push(
            TableUpdate::SetSnapshotRef {
                ref_name: MAIN_BRANCH.to_owned(),
                reference: SnapshotReference {
                    snapshot_id,
                    retention: SnapshotRetention::Branch {
                        min_snapshots_to_keep: None,
                        max_snapshot_age_ms: None,
                        max_ref_age_ms: None,
                    },
                },
            },
        );
        let mut requirements: Vec<TableRequirement> = Vec::new();
        requirements.push(TableRequirement::UuidMatch { uuid: table.uuid });
        requirements.push(
            TableRequirement::RefSnapshotIdMatch {
                ref_name: MAIN_BRANCH.to_owned(),
                snapshot_id: table.current_snapshot_id(),
            },
        );
        ActionCommit::new(updates, requirements)
    }

    /// Finishes the commit, now.
    pub fn finish(self, summary: Summary, next_row_id: Option<u64>) -> (r: ActionCommit)
        requires
            next_row_id matches Some(next) ==> next >= self.producer.table.next_row_id,
        ensures
            exists|timestamp_ms: i64|
                timestamp_ms >= 0 && self.commits(summary, next_row_id, timestamp_ms, r),
    {
        let timestamp_ms = current_time_millis();
        self.finish_at(summary, next_row_id, timestamp_ms)
    }
}

} // verus!
