//! Production of new snapshots.

use vstd::hash_set::StringHashSet;
use vstd::prelude::*;
use vstd::string::StringExecFns;

use crate::error::{Error, ErrorKind};
use crate::identity::{generate_unique_snapshot_id, is_fresh_id, uuid_text, uuid_to_text};
use crate::manifest::{
    DataContentType, DataFile, FormatVersion, ManifestContentType, ManifestEntry, ManifestFile,
    ManifestStatus,
};
use crate::partition::{
    find_partition_fault, partition_error, partition_fault, reports_partition_fault,
    PartitionFault,
};
use crate::properties::Properties;
use crate::table::{
    current_id, number_property, Operation, Summary, TableMetadata,
    PROPERTY_WRITE_PARTITION_SUMMARY_LIMIT, PROPERTY_WRITE_PARTITION_SUMMARY_LIMIT_DEFAULT,
};
use crate::text::{
    decimal, decimal_text, join, joined, signed_decimal, signed_decimal_text, string_views,
};

verus! {

/// The directory, below the table's location, that metadata is stored in.
pub const META_ROOT_PATH: &'static str = "metadata";

/// The extension of manifests and manifest lists.
pub const AVRO_EXTENSION: &'static str = "avro";

/// Manifests that have been processed for a new snapshot.
#[derive(Debug)]
pub struct ProcessedManifests {
    /// The manifests of the new snapshot.
    pub manifests: Vec<ManifestFile>,
    /// What the summary is to say of the processing. It goes before what a user
    /// asked for and before the metrics of added data files.
    pub summary_properties: Properties,
}

impl ProcessedManifests {
    /// Processed manifests of which the summary is to say nothing.
    pub fn new(manifests: Vec<ManifestFile>) -> (r: ProcessedManifests)
        ensures
            r.manifests == manifests,
            r.summary_properties@ == Map::<Seq<char>, Seq<char>>::empty(),
    {
        ProcessedManifests { manifests, summary_properties: Properties::new() }
    }

    /// Adds a property to what the summary is to say.
    pub fn with_property(self, key: &str, value: String) -> (r: ProcessedManifests)
        ensures
            r.manifests == self.manifests,
            r.summary_properties@ == self.summary_properties@.insert(key@, value@),
    {
        let mut processed = self;
        processed.summary_properties.insert(key.to_owned(), value);
        processed
    }
}

/// Processes manifests by taking them as they are.
pub fn keep_manifests(manifests: Vec<ManifestFile>) -> (r: ProcessedManifests)
    ensures
        r.manifests == manifests,
        r.summary_properties@ == Map::<Seq<char>, Seq<char>>::empty(),
{
    ProcessedManifests::new(manifests)
}

/// The bytes, if any.
pub open spec fn bytes_view(bytes: Option<Vec<u8>>) -> Option<Seq<u8>> {
    match bytes {
        Some(b) => Some(b@),
        None => None,
    }
}

fn clone_bytes(bytes: &Option<Vec<u8>>) -> (r: Option<Vec<u8>>)
    ensures
        bytes_view(r) == bytes_view(*bytes),
{
    match bytes {
        Some(b) => {
            let copy = b.clone();
            assert(copy@ =~= b@);
            Some(copy)
        },
        None => None,
    }
}

/// The format that a manifest is written in.
#[derive(Debug, Clone, Copy, PartialEq, Eq, Structural)]
pub enum ManifestWriterVersion {
    V1,
    V2Data,
    V2Deletes,
    V3Data,
    V3Deletes,
}

/// The format for a manifest of this content in a table of this version.
pub open spec fn writer_version(
    version: FormatVersion,
    content: ManifestContentType,
) -> ManifestWriterVersion {
    match (version, content) {
        (FormatVersion::V1, _) => ManifestWriterVersion::V1,
        (FormatVersion::V2, ManifestContentType::Data) => ManifestWriterVersion::V2Data,
        (FormatVersion::V2, ManifestContentType::Deletes) => ManifestWriterVersion::V2Deletes,
        (FormatVersion::V3, ManifestContentType::Data) => ManifestWriterVersion::V3Data,
        (FormatVersion::V3, ManifestContentType::Deletes) => ManifestWriterVersion::V3Deletes,
    }
}

/// What a manifest writer is made with.
#[derive(Debug, Clone, PartialEq, Eq)]
pub struct ManifestWriterConfig {
    pub path: String,
    pub snapshot_id: Option<i64>,
    pub key_metadata: Option<Vec<u8>>,
    pub schema_id: i32,
    pub partition_spec_id: i32,
    pub version: ManifestWriterVersion,
}

/// A manifest to be written for added data files.
#[derive(Debug, Clone, PartialEq, Eq)]
pub struct AddedManifest {
    pub writer: ManifestWriterConfig,
    pub entries: Vec<ManifestEntry>,
}

/// The format that a manifest list is written in.
#[derive(Debug, Clone, Copy, PartialEq, Eq, Structural)]
pub enum ManifestListVersion {
    V1,
    V2 { sequence_number: i64 },
    V3 { sequence_number: i64, first_row_id: Option<u64> },
}

/// What a manifest list writer is made with.
#[derive(Debug, Clone, PartialEq, Eq)]
pub struct ManifestListConfig {
    pub path: String,
    pub snapshot_id: i64,
    pub parent_snapshot_id: Option<i64>,
    pub version: ManifestListVersion,
}

/// How the metrics of added data files are collected.
#[derive(Debug, Clone, Copy, PartialEq, Eq)]
pub struct AddedFilesMetrics {
    pub partition_summary_limit: u64,
    pub schema_id: i32,
    pub partition_spec_id: i32,
}

/// A summary whose totals are to be brought up to date.
#[derive(Debug)]
pub struct SummaryUpdate {
    pub summary: Summary,
    /// The summary of the snapshot before, which the totals go on from.
    pub previous: Option<Summary>,
    /// Whether everything that was in the table counts as removed.
    pub truncate_full_table: bool,
}

/// Produces a new snapshot of a table.
#[derive(Debug)]
pub struct SnapshotProducer<'a> {
    pub table: &'a TableMetadata,
    pub snapshot_id: i64,
    pub commit_uuid: u128,
    pub key_metadata: Option<Vec<u8>>,
    pub snapshot_properties: Properties,
    pub added_data_files: Vec<DataFile>,
    /// The number in the name of the next manifest.
    pub manifest_counter: u64,
}

/// Where the manifest with this number is stored.
pub open spec fn manifest_path(
    location: Seq<char>,
    commit_uuid: u128,
    counter: u64,
) -> Seq<char> {
    location + "/"@ + META_ROOT_PATH@ + "/"@ + uuid_text(commit_uuid) + "-m"@ + decimal(
        counter as nat,
    ) + "."@ + AVRO_EXTENSION@
}

/// Where the manifest list is stored.
pub open spec fn manifest_list_path(
    location: Seq<char>,
    snapshot_id: i64,
    attempt: i64,
    commit_uuid: u128,
) -> Seq<char> {
    location + "/"@ + META_ROOT_PATH@ + "/snap-"@ + signed_decimal(snapshot_id as int) + "-"@
        + signed_decimal(attempt as int) + "-"@ + uuid_text(commit_uuid) + "."@ + AVRO_EXTENSION@
}

/// The entry that lists an added data file. From the second format version on
/// its snapshot id is inherited, so that a retried commit need not write the
/// manifest again.
pub open spec fn added_entry(
    file: DataFile,
    version: FormatVersion,
    snapshot_id: i64,
) -> ManifestEntry {
    ManifestEntry {
        status: ManifestStatus::Added,
        snapshot_id: if version == FormatVersion::V1 {
            Some(snapshot_id)
        } else {
            None
        },
        sequence_number: None,
        file_sequence_number: None,
        data_file: file,
    }
}

/// What is wrong with an added data file.
#[derive(Debug, Clone, Copy, PartialEq, Eq, Structural)]
pub enum AddedFileFault {
    /// The file does not hold data.
    NotData,
    /// The file is not partitioned by the table's default partition spec.
    WrongSpec,
    /// The file's partition tuple is not one of the spec's type.
    Partition(PartitionFault),
}

/// What is wrong with a data file that is to be added to the table.
pub open spec fn file_fault(file: DataFile, table: TableMetadata) -> Option<AddedFileFault> {
    if file.content != DataContentType::Data {
        Some(AddedFileFault::NotData)
    } else if table.default_partition_spec_id != file.partition_spec_id {
        Some(AddedFileFault::WrongSpec)
    } else {
        match partition_fault(file.partition, table.default_partition_type) {
            Some(fault) => Some(AddedFileFault::Partition(fault)),
            None => None,
        }
    }
}

/// The first fault among the first `n` files.
pub open spec fn first_file_fault(
    files: Seq<DataFile>,
    table: TableMetadata,
    n: int,
) -> Option<AddedFileFault>
    decreases n,
{
    if n <= 0 {
        None
    } else {
        match first_file_fault(files, table, n - 1) {
            Some(fault) => Some(fault),
            None => file_fault(files[n - 1], table),
        }
    }
}

proof fn lemma_first_file_fault_stays(
    files: Seq<DataFile>,
    table: TableMetadata,
    n: int,
    m: int,
)
    requires
        n <= m,
        first_file_fault(files, table, n) is Some,
    ensures
        first_file_fault(files, table, m) == first_file_fault(files, table, n),
    decreases m - n,
{
    if n < m {
        lemma_first_file_fault_stays(files, table, n, m - 1);
    }
}

/// Whether the error is the one for this fault.
pub open spec fn reports_file_fault(error: Error, fault: AddedFileFault) -> bool {
    match fault {
        AddedFileFault::NotData => error.says(
            ErrorKind::DataInvalid,
            "Only data content type is allowed for fast append"@,
        ),
        AddedFileFault::WrongSpec => error.says(
            ErrorKind::DataInvalid,
            "Data file partition spec id does not match table default partition spec id"@,
        ),
        AddedFileFault::Partition(fault) => reports_partition_fault(error, fault),
    }
}

/// Whether a file with this path is among the files.
pub open spec fn has_path(files: Seq<DataFile>, path: Seq<char>) -> bool {
    exists|i: int| 0 <= i < files.len() && (#[trigger] files[i]).file_path@ == path
}

/// The paths of the live entries that list one of the files, in order.
pub open spec fn referenced_paths(entries: Seq<ManifestEntry>, files: Seq<DataFile>) -> Seq<
    Seq<char>,
>
    decreases entries.len(),
{
    if entries.len() == 0 {
        Seq::empty()
    } else {
        let before = referenced_paths(entries.drop_last(), files);
        let path = entries.last().data_file.file_path@;
        if has_path(files, path) && entries.last().alive() {
            before.push(path)
        } else {
            before
        }
    }
}

/// The paths of the live entries that list one of the files, manifest after
/// manifest.
pub open spec fn all_referenced_paths(
    manifests: Seq<Vec<ManifestEntry>>,
    files: Seq<DataFile>,
) -> Seq<Seq<char>>
    decreases manifests.len(),
{
    if manifests.len() == 0 {
        Seq::empty()
    } else {
        all_referenced_paths(manifests.drop_last(), files) + referenced_paths(
            manifests.last()@,
            files,
        )
    }
}

impl<'a> SnapshotProducer<'a> {
    /// The producer with its counter moved on by one, as it is after a manifest
    /// has been named.
    pub open spec fn counted(self) -> SnapshotProducer<'a> {
        SnapshotProducer {
            manifest_counter: if self.manifest_counter == u64::MAX {
                0
            } else {
                (self.manifest_counter + 1) as u64
            },
            ..self
        }
    }

    /// Whether this is what the producer's next manifest writer is made with.
    pub open spec fn next_writer(
        self,
        content: ManifestContentType,
        writer: ManifestWriterConfig,
    ) -> bool {
        &&& writer.path@ == manifest_path(
            self.table.location@,
            self.commit_uuid,
            self.manifest_counter,
        )
        &&& writer.snapshot_id == Some(self.snapshot_id)
        &&& bytes_view(writer.key_metadata) == bytes_view(self.key_metadata)
        &&& writer.schema_id == self.table.current_schema_id
        &&& writer.partition_spec_id == self.table.default_partition_spec_id
        &&& writer.version == writer_version(self.table.format_version, content)
    }

    /// Whether this is the manifest to be written for the added data files, and
    /// this the producer after they have been taken out of it.
    pub open spec fn takes_added(self, added: AddedManifest, after: SnapshotProducer<'a>) -> bool {
        &&& self.added_data_files@.len() > 0
        &&& self.next_writer(ManifestContentType::Data, added.writer)
        &&& added.entries@ == self.added_data_files@.map_values(
            |file: DataFile| added_entry(file, self.table.format_version, self.snapshot_id),
        )
        &&& after.added_data_files@.len() == 0
        &&& after == (SnapshotProducer {
            added_data_files: after.added_data_files,
            ..self.counted()
        })
    }

    /// What the summary says before its totals are brought up to date: what the
    /// user asked for, and over it the metrics of added data files, and over these
    /// what the processing of manifests reported.
    pub open spec fn merged_properties(
        self,
        added_files: Map<Seq<char>, Seq<char>>,
        process: Map<Seq<char>, Seq<char>>,
    ) -> Map<Seq<char>, Seq<char>> {
        self.snapshot_properties@.union_prefer_right(added_files).union_prefer_right(process)
    }

    /// Whether this is the summary that is to be brought up to date, for an
    /// operation and for what was reported of added files and of processing.
    pub open spec fn summarizes(
        self,
        operation: Operation,
        added_files: Map<Seq<char>, Seq<char>>,
        process: Map<Seq<char>, Seq<char>>,
        update: SummaryUpdate,
    ) -> bool {
        &&& update.summary.operation == operation
        &&& update.summary.additional_properties@ == self.merged_properties(added_files, process)
        &&& match self.table.current_snapshot {
            Some(snapshot) => {
                &&& update.previous matches Some(previous)
                &&& previous.operation == snapshot.summary.operation
                &&& previous.additional_properties@ == snapshot.summary.additional_properties@
            },
            None => update.previous is None,
        }
        &&& update.truncate_full_table == (operation == Operation::Overwrite)
    }

    /// A producer for a commit to the table, with a snapshot id that the table
    /// does not use yet.
    pub fn new(
        table: &'a TableMetadata,
        commit_uuid: u128,
        key_metadata: Option<Vec<u8>>,
        snapshot_properties: Properties,
        added_data_files: Vec<DataFile>,
    ) -> (r: SnapshotProducer<'a>)
        requires
            table.snapshot_ids@.len() <= i64::MAX,
        ensures
            r == (SnapshotProducer {
                table,
                snapshot_id: r.snapshot_id,
                commit_uuid,
                key_metadata,
                snapshot_properties,
                added_data_files,
                manifest_counter: 0,
            }),
            is_fresh_id(table.snapshot_ids@, r.snapshot_id),
    {
        SnapshotProducer {
            table,
            snapshot_id: generate_unique_snapshot_id(&table.snapshot_ids),
            commit_uuid,
            key_metadata,
            snapshot_properties,
            added_data_files,
            manifest_counter: 0,
        }
    }

    /// Finds the first thing that is wrong with the added data files.
    pub fn find_file_fault(&self) -> (r: Option<AddedFileFault>)
        ensures
            r == first_file_fault(
                self.added_data_files@,
                *self.table,
                self.added_data_files@.len() as int,
            ),
    {
        for i in 0..self.added_data_files.len()
            invariant
                first_file_fault(self.added_data_files@, *self.table, i as int) is None,
        {
            let file = &self.added_data_files[i];
            let fault: Option<AddedFileFault> = if file.content != DataContentType::Data {
                Some(AddedFileFault::NotData)
            } else if self.table.default_partition_spec_id != file.partition_spec_id {
                Some(AddedFileFault::WrongSpec)
            } else {
                match find_partition_fault(&file.partition, &self.table.default_partition_type) {
                    Some(fault) => Some(AddedFileFault::Partition(fault)),
                    None => None,
                }
            };
            if fault.is_some() {
                proof {
                    lemma_first_file_fault_stays(
                        self.added_data_files@,
                        *self.table,
                        i + 1,
                        self.added_data_files@.len() as int,
                    );
                }
                return fault;
            }
        }
        None
    }

    /// Checks that the added data files can be appended to the table.
    pub fn validate_added_data_files(&self) -> (r: Result<(), Error>)
        requires
            first_file_fault(
                self.added_data_files@,
                *self.table,
                self.added_data_files@.len() as int,
            ) != Some(AddedFileFault::Partition(PartitionFault::NestedValue)),
        ensures
            ({
                let fault = first_file_fault(
                    self.added_data_files@,
                    *self.table,
                    self.added_data_files@.len() as int,
                );
                match r {
                    Ok(()) => fault is None,
                    Err(error) => fault matches Some(f) && reports_file_fault(error, f),
                }
            }),
    {
        match self.find_file_fault() {
            None => Ok(()),
            Some(AddedFileFault::NotData) => Err(
                Error::new(
                    ErrorKind::DataInvalid,
                    "Only data content type is allowed for fast append",
                ),
            ),
            Some(AddedFileFault::WrongSpec) => Err(
                Error::new(
                    ErrorKind::DataInvalid,
                    "Data file partition spec id does not match table default partition spec id",
                ),
            ),
            Some(AddedFileFault::Partition(fault)) => Err(partition_error(fault)),
        }
    }

    /// The manifest list whose manifests are to be read to find out whether an
    /// added file is part of the table already. A table without a snapshot has
    /// none.
    pub fn manifest_list_to_check(&self) -> (r: Option<&String>)
        ensures
            match self.table.current_snapshot {
                Some(snapshot) => r matches Some(path) && path@ == snapshot.manifest_list@,
                None => r is None,
            },
    {
        match &self.table.current_snapshot {
            Some(snapshot) => Some(&snapshot.manifest_list),
            None => None,
        }
    }

    /// Checks that no added file is part of the table already, given the entries
    /// of the current snapshot's manifests, in the order in which they were read.
    pub fn validate_duplicate_files(&self, manifests: &Vec<Vec<ManifestEntry>>) -> (r: Result<
        (),
        Error,
    >)
        ensures
            ({
                let referenced = all_referenced_paths(manifests@, self.added_data_files@);
                match r {
                    Ok(()) => self.table.current_snapshot is None || referenced.len() == 0,
                    Err(error) => {
                        &&& self.table.current_snapshot is Some
                        &&& referenced.len() > 0
                        &&& error.says(
                            ErrorKind::DataInvalid,
                            "Cannot add files that are already referenced by table, files: "@
                                + joined(referenced, ", "@),
                        )
                    },
                }
            }),
    {
        if self.table.current_snapshot.is_none() {
            return Ok(());
        }
        let ghost files = self.added_data_files@;
        let mut new_files = StringHashSet::new();
        for i in 0..self.added_data_files.len()
            invariant
                files == self.added_data_files@,
                forall|path: Seq<char>|
                    new_files@.contains(path) <==> has_path(files.take(i as int), path),
        {
            let path = self.added_data_files[i].file_path.clone();
            let ghost before = new_files@;
            new_files.insert(path);
            assert forall|other: Seq<char>|
                new_files@.contains(other) <==> has_path(files.take(i + 1), other) by {
                let seen = files.take(i as int);
                let more = files.take(i + 1);
                if has_path(seen, other) {
                    let j = choose|j: int|
                        0 <= j < seen.len() && (#[trigger] seen[j]).file_path@ == other;
                    assert(more[j].file_path@ == other);
                }
                if other == path@ {
                    assert(more[i as int].file_path@ == other);
                }
                if has_path(more, other) && other != path@ {
                    let j = choose|j: int|
                        0 <= j < more.len() && (#[trigger] more[j]).file_path@ == other;
                    assert(seen[j].file_path@ == other);
                }
            }
        }
        assert(files.take(files.len() as int) =~= files);
        let mut referenced: Vec<String> = Vec::new();
        assert(string_views(referenced@) =~= all_referenced_paths(manifests@.take(0), files));
        for i in 0..manifests.len()
            invariant
                files == self.added_data_files@,
                forall|path: Seq<char>| new_files@.contains(path) <==> has_path(files, path),
                string_views(referenced@) == all_referenced_paths(
                    manifests@.take(i as int),
                    files,
                ),
        {
            let entries = &manifests[i];
            let ghost before = string_views(referenced@);
            assert(before + referenced_paths(entries@.take(0), files) =~= before);
            for j in 0..entries.len()
                invariant
                    forall|path: Seq<char>| new_files@.contains(path) <==> has_path(files, path),
                    string_views(referenced@) == before + referenced_paths(
                        entries@.take(j as int),
                        files,
                    ),
            {
                let entry = &entries[j];
                assert(entries@.take(j + 1).drop_last() =~= entries@.take(j as int));
                let ghost found = string_views(referenced@);
                if new_files.contains(entry.data_file.file_path.as_str()) && entry.is_alive() {
                    referenced.push(entry.data_file.file_path.clone());
                    assert(string_views(referenced@) =~= found.push(entry.data_file.file_path@));
                }
                assert(string_views(referenced@) =~= before + referenced_paths(
                    entries@.take(j + 1),
                    files,
                ));
            }
            assert(entries@.take(entries@.len() as int) =~= entries@);
            assert(manifests@.take(i + 1).drop_last() =~= manifests@.take(i as int));
        }
        assert(manifests@.take(manifests@.len() as int) =~= manifests@);
        assert(string_views(referenced@).len() == referenced@.len());
        if referenced.is_empty() {
            Ok(())
        } else {
            let mut message =
                "Cannot add files that are already referenced by table, files: ".to_owned();
            message.append(join(&referenced, ", ").as_str());
            Err(Error { kind: ErrorKind::DataInvalid, message })
        }
    }

    /// Names the producer's next manifest, and says what its writer is made with.
    pub fn new_manifest_writer(&mut self, content: ManifestContentType) -> (r: ManifestWriterConfig)
        ensures
            old(self).next_writer(content, r),
            *final(self) == old(self).counted(),
    {
        let mut path = self.table.location.clone();
        path.append("/");
        path.append(META_ROOT_PATH);
        path.append("/");
        path.append(uuid_to_text(self.commit_uuid).as_str());
        path.append("-m");
        path.append(decimal_text(self.manifest_counter).as_str());
        path.append(".");
        path.append(AVRO_EXTENSION);
        self.manifest_counter = self.manifest_counter.wrapping_add(1);
        let version = match (self.table.format_version, content) {
            (FormatVersion::V1, _) => ManifestWriterVersion::V1,
            (FormatVersion::V2, ManifestContentType::Data) => ManifestWriterVersion::V2Data,
            (FormatVersion::V2, ManifestContentType::Deletes) => ManifestWriterVersion::V2Deletes,
            (FormatVersion::V3, ManifestContentType::Data) => ManifestWriterVersion::V3Data,
            (FormatVersion::V3, ManifestContentType::Deletes) => ManifestWriterVersion::V3Deletes,
        };
        ManifestWriterConfig {
            path,
            snapshot_id: Some(self.snapshot_id),
            key_metadata: clone_bytes(&self.key_metadata),
            schema_id: self.table.current_schema_id,
            partition_spec_id: self.table.default_partition_spec_id,
            version,
        }
    }

    /// Takes the added data files out of the producer, and says what manifest is to
    /// be written for them.
    pub fn take_added_manifest(&mut self) -> (r: Result<AddedManifest, Error>)
        ensures
            match r {
                Ok(added) => old(self).takes_added(added, *final(self)),
                Err(error) => {
                    &&& old(self).added_data_files@.len() == 0
                    &&& error.says(
                        ErrorKind::PreconditionFailed,
                        "No added data files found when write an added manifest file"@,
                    )
                    &&& final(self).added_data_files@.len() == 0
                    &&& *final(self) == (SnapshotProducer {
                        added_data_files: final(self).added_data_files,
                        ..*old(self)
                    })
                },
            },
    {
        let mut files: Vec<DataFile> = Vec::new();
        std::mem::swap(&mut files, &mut self.added_data_files);
        if files.is_empty() {
            return Err(
                Error::new(
                    ErrorKind::PreconditionFailed,
                    "No added data files found when write an added manifest file",
                ),
            );
        }
        let ghost all = files@;
        let version = self.table.format_version;
        let snapshot_id = self.snapshot_id;
        let writer = self.new_manifest_writer(ManifestContentType::Data);
        let mut entries: Vec<ManifestEntry> = Vec::new();
        for file in it: files
            invariant
                it.seq() == all,
                entries@ == all.take(it.index()).map_values(
                    |file: DataFile| added_entry(file, version, snapshot_id),
                ),
        {
            let ghost i = it.index();
            let entry = ManifestEntry {
                status: ManifestStatus::Added,
                snapshot_id: if version == FormatVersion::V1 {
                    Some(snapshot_id)
                } else {
                    None
                },
                sequence_number: None,
                file_sequence_number: None,
                data_file: file,
            };
            assert(entry == added_entry(all[i], version, snapshot_id));
            entries.push(entry);
            assert(entries@ =~= all.take(i + 1).map_values(
                |file: DataFile| added_entry(file, version, snapshot_id),
            ));
        }
        assert(all.take(all.len() as int) =~= all);
        Ok(AddedManifest { writer, entries })
    }

    /// How the metrics of the added data files are to be collected. They have to be
    /// collected before the files are taken out of the producer.
    pub fn added_files_metrics(&self) -> (r: AddedFilesMetrics)
        ensures
            r == (AddedFilesMetrics {
                partition_summary_limit: number_property(
                    self.table.properties@,
                    PROPERTY_WRITE_PARTITION_SUMMARY_LIMIT@,
                    PROPERTY_WRITE_PARTITION_SUMMARY_LIMIT_DEFAULT,
                ),
                schema_id: self.table.current_schema_id,
                partition_spec_id: self.table.default_partition_spec_id,
            }),
    {
        AddedFilesMetrics {
            partition_summary_limit: self.table.number_property_or(
                PROPERTY_WRITE_PARTITION_SUMMARY_LIMIT,
                PROPERTY_WRITE_PARTITION_SUMMARY_LIMIT_DEFAULT,
            ),
            schema_id: self.table.current_schema_id,
            partition_spec_id: self.table.default_partition_spec_id,
        }
    }

    /// Puts the summary of the new snapshot together, for its totals to be brought
    /// up to date.
    pub fn summary(
        &self,
        operation: Operation,
        added_files_summary: Properties,
        process_summary: Properties,
    ) -> (r: SummaryUpdate)
        ensures
            self.summarizes(operation, added_files_summary@, process_summary@, r),
    {
        let mut additional_properties = self.snapshot_properties.clone();
        additional_properties.extend(added_files_summary);
        additional_properties.extend(process_summary);
        SummaryUpdate {
            summary: Summary { operation, additional_properties },
            previous: match &self.table.current_snapshot {
                Some(snapshot) => Some(snapshot.summary.clone()),
                None => None,
            },
            truncate_full_table: operation == Operation::Overwrite,
        }
    }

    /// Names the manifest list.
    pub fn generate_manifest_list_file_path(&self, attempt: i64) -> (r: String)
        ensures
            r@ == manifest_list_path(
                self.table.location@,
                self.snapshot_id,
                attempt,
                self.commit_uuid,
            ),
    {
        let mut path = self.table.location.clone();
        path.append("/");
        path.append(META_ROOT_PATH);
        path.append("/snap-");
        path.append(signed_decimal_text(self.snapshot_id).as_str());
        path.append("-");
        path.append(signed_decimal_text(attempt).as_str());
        path.append("-");
        path.append(uuid_to_text(self.commit_uuid).as_str());
        path.append(".");
        path.append(AVRO_EXTENSION);
        path
    }

    /// Whether this is what the manifest list writer of the commit is made with.
    pub open spec fn list_writer(self, config: ManifestListConfig) -> bool {
        &&& config.path@ == manifest_list_path(
            self.table.location@,
            self.snapshot_id,
            0,
            self.commit_uuid,
        )
        &&& config.snapshot_id == self.snapshot_id
        &&& config.parent_snapshot_id == current_id(*self.table)
        &&& config.version == match self.table.format_version {
            FormatVersion::V1 => ManifestListVersion::V1,
            FormatVersion::V2 => ManifestListVersion::V2 {
                sequence_number: self.table.next_sequence_number,
            },
            FormatVersion::V3 => ManifestListVersion::V3 {
                sequence_number: self.table.next_sequence_number,
                first_row_id: Some(self.table.next_row_id),
            },
        }
    }

    /// Says what the manifest list writer of the commit is made with.
    pub fn manifest_list_writer(&self) -> (r: ManifestListConfig)
        ensures
            self.list_writer(r),
    {
        ManifestListConfig {
            path: self.generate_manifest_list_file_path(0),
            snapshot_id: self.snapshot_id,
            parent_snapshot_id: self.table.current_snapshot_id(),
            version: match self.table.format_version {
                FormatVersion::V1 => ManifestListVersion::V1,
                FormatVersion::V2 => ManifestListVersion::V2 {
                    sequence_number: self.table.next_sequence_number,
                },
                FormatVersion::V3 => ManifestListVersion::V3 {
                    sequence_number: self.table.next_sequence_number,
                    first_row_id: Some(self.table.next_row_id),
                },
            },
        }
    }
}

} // verus!
