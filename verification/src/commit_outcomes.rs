//! What calls on a snapshot producer, and the steps of a commit, return.

use vstd::prelude::*;

use crate::commit::{
    CommitBegun, CommitFinishing, CommitListed, CommitProcessing, ListWork,
};
use crate::error::{Error, ErrorKind};
use crate::identity::uuid_text;
use crate::manifest::{
    DataContentType, DataFile, FormatVersion, ManifestContentType, ManifestEntry, ManifestFile,
    ManifestStatus,
};
use crate::partition::{Literal, PartitionFault};
use crate::partition_laws::{first_refusal, is_accepted, law_partition_fault_is_the_first};
use crate::properties::Properties;
use crate::selection_laws::writes;
use crate::snapshot::{
    all_referenced_paths, file_fault, first_file_fault, has_path, keep_manifests, manifest_list_path,
    manifest_path, referenced_paths, AddedFileFault, AddedFilesMetrics, AddedManifest,
    ManifestListConfig, ManifestListVersion, ManifestWriterConfig, ManifestWriterVersion,
    ProcessedManifests, SnapshotProducer, SummaryUpdate,
};
use crate::table::{
    ActionCommit, Operation, Snapshot, SnapshotRetention, Summary, TableMetadata,
    TableRequirement, TableUpdate,
};
use crate::text::{decimal, joined, signed_decimal};
use crate::text_laws::{
    law_decimal_has_value, law_parsed_number_is_the_value_of_its_digits,
    law_signed_decimal_has_value, place_value,
};
use crate::value_outcomes::{digits_of, is_number, is_tuple_of};

verus! {

/// Whether this is where a manifest is stored: in the directory "metadata" of the
/// table, under the UUID of the commit and a number.
pub open spec fn is_manifest_path(
    path: Seq<char>,
    location: Seq<char>,
    commit_uuid: u128,
    counter: u64,
) -> bool {
    exists|number: Seq<char>|
        {
            &&& #[trigger] writes(number, counter as nat)
            &&& path == location + "/metadata/"@ + uuid_text(commit_uuid) + "-m"@ + number
                + ".avro"@
        }
}

pub proof fn lemma_manifest_path(location: Seq<char>, commit_uuid: u128, counter: u64)
    ensures
        is_manifest_path(
            manifest_path(location, commit_uuid, counter),
            location,
            commit_uuid,
            counter,
        ),
{
    law_decimal_has_value(counter as nat);
    let number = decimal(counter as nat);
    assert(writes(number, counter as nat));
    reveal_strlit("/metadata/");
    reveal_strlit("/");
    reveal_strlit("metadata");
    reveal_strlit(".avro");
    reveal_strlit(".");
    reveal_strlit("avro");
    assert("/metadata/"@ =~= "/"@ + "metadata"@ + "/"@);
    assert(".avro"@ =~= "."@ + "avro"@);
    assert(manifest_path(location, commit_uuid, counter) =~= location + "/metadata/"@ + uuid_text(
        commit_uuid,
    ) + "-m"@ + number + ".avro"@);
}

/// Whether the text is a signed number in decimal.
pub open spec fn writes_signed(s: Seq<char>, n: int) -> bool {
    if n < 0 {
        s.len() > 0 && s[0] == '-' && writes(s.drop_first(), (-n) as nat)
    } else {
        writes(s, n as nat)
    }
}

/// Whether this is where a manifest list is stored: in the directory "metadata" of
/// the table, under the id of the snapshot, the attempt and the UUID of the commit.
pub open spec fn is_manifest_list_path(
    path: Seq<char>,
    location: Seq<char>,
    snapshot_id: i64,
    attempt: i64,
    commit_uuid: u128,
) -> bool {
    exists|id: Seq<char>, number: Seq<char>|
        {
            &&& #[trigger] writes_signed(id, snapshot_id as int)
            &&& #[trigger] writes_signed(number, attempt as int)
            &&& path == location + "/metadata/snap-"@ + id + "-"@ + number + "-"@ + uuid_text(
                commit_uuid,
            ) + ".avro"@
        }
}

proof fn lemma_manifest_list_path(
    location: Seq<char>,
    snapshot_id: i64,
    attempt: i64,
    commit_uuid: u128,
)
    ensures
        is_manifest_list_path(
            manifest_list_path(location, snapshot_id, attempt, commit_uuid),
            location,
            snapshot_id,
            attempt,
            commit_uuid,
        ),
{
    law_signed_decimal_has_value(snapshot_id as int);
    law_signed_decimal_has_value(attempt as int);
    let id = signed_decimal(snapshot_id as int);
    let number = signed_decimal(attempt as int);
    assert(writes_signed(id, snapshot_id as int));
    assert(writes_signed(number, attempt as int));
    reveal_strlit("/metadata/snap-");
    reveal_strlit("/");
    reveal_strlit("metadata");
    reveal_strlit("/snap-");
    reveal_strlit(".avro");
    reveal_strlit(".");
    reveal_strlit("avro");
    assert("/metadata/snap-"@ =~= "/"@ + "metadata"@ + "/snap-"@);
    assert(".avro"@ =~= "."@ + "avro"@);
    assert(manifest_list_path(location, snapshot_id, attempt, commit_uuid) =~= location
        + "/metadata/snap-"@ + id + "-"@ + number + "-"@ + uuid_text(commit_uuid) + ".avro"@);
}

/// The id of the table's current snapshot, where it has one.
pub open spec fn parent_of(table: TableMetadata) -> Option<i64> {
    if table.current_snapshot is Some {
        Some(table.current_snapshot->0.snapshot_id)
    } else {
        None
    }
}

/// Whether both are missing, or hold the same bytes.
pub open spec fn same_bytes(a: Option<Vec<u8>>, b: Option<Vec<u8>>) -> bool {
    match (a, b) {
        (Some(x), Some(y)) => x@ == y@,
        (None, None) => true,
        _ => false,
    }
}

/// Whether this is what a manifest writer of a commit is made with: its path, and
/// what the table and the producer say.
pub open spec fn writes_manifest(
    writer: ManifestWriterConfig,
    producer: SnapshotProducer<'_>,
    content: ManifestContentType,
) -> bool {
    let table = *producer.table;
    &&& is_manifest_path(
        writer.path@,
        table.location@,
        producer.commit_uuid,
        producer.manifest_counter,
    )
    &&& writer.snapshot_id == Some(producer.snapshot_id)
    &&& same_bytes(writer.key_metadata, producer.key_metadata)
    &&& writer.schema_id == table.current_schema_id
    &&& writer.partition_spec_id == table.default_partition_spec_id
    &&& match writer.version {
        ManifestWriterVersion::V1 => table.format_version == FormatVersion::V1,
        ManifestWriterVersion::V2Data => table.format_version == FormatVersion::V2 && content
            == ManifestContentType::Data,
        ManifestWriterVersion::V2Deletes => table.format_version == FormatVersion::V2 && content
            == ManifestContentType::Deletes,
        ManifestWriterVersion::V3Data => table.format_version == FormatVersion::V3 && content
            == ManifestContentType::Data,
        ManifestWriterVersion::V3Deletes => table.format_version == FormatVersion::V3 && content
            == ManifestContentType::Deletes,
    }
}

/// Whether a producer is another after its next manifest was named: only the
/// counter has moved on by one, from the largest integer to zero.
pub open spec fn has_counted(before: SnapshotProducer<'_>, after: SnapshotProducer<'_>) -> bool {
    &&& after.table == before.table
    &&& after.snapshot_id == before.snapshot_id
    &&& after.commit_uuid == before.commit_uuid
    &&& after.key_metadata == before.key_metadata
    &&& after.snapshot_properties == before.snapshot_properties
    &&& after.manifest_counter as int == before.manifest_counter + 1 || (after.manifest_counter == 0
        && before.manifest_counter == 0xffff_ffff_ffff_ffff)
}

/// A new producer holds what it was made with, starts to count from zero, and has a
/// snapshot id that the table does not use.
pub proof fn law_new_producer<'a>(
    table: &'a TableMetadata,
    commit_uuid: u128,
    key_metadata: Option<Vec<u8>>,
    snapshot_properties: Properties,
    added_data_files: Vec<DataFile>,
    r: SnapshotProducer<'a>,
)
    requires
        call_ensures(
            SnapshotProducer::<'a>::new,
            (table, commit_uuid, key_metadata, snapshot_properties, added_data_files),
            r,
        ),
    ensures
        r.table == table,
        r.commit_uuid == commit_uuid,
        r.key_metadata == key_metadata,
        r.snapshot_properties == snapshot_properties,
        r.added_data_files == added_data_files,
        r.manifest_counter == 0,
        r.snapshot_id >= 0,
        forall|i: int| 0 <= i < table.snapshot_ids@.len() ==> table.snapshot_ids@[i] != r.snapshot_id,
{
}

/// A new manifest writer is made for the next number, and the number moves on.
pub proof fn law_new_manifest_writer<'a>(
    producer: &mut SnapshotProducer<'a>,
    content: ManifestContentType,
    r: ManifestWriterConfig,
)
    requires
        call_ensures(SnapshotProducer::<'a>::new_manifest_writer, (producer, content), r),
    ensures
        writes_manifest(r, *old(producer), content),
        has_counted(*old(producer), *final(producer)),
        final(producer).added_data_files == old(producer).added_data_files,
{
    lemma_manifest_path(
        old(producer).table.location@,
        old(producer).commit_uuid,
        old(producer).manifest_counter,
    );
}

/// Whether an entry lists a file as added: the snapshot is named in the first format
/// version alone, and the sequence numbers are never.
pub open spec fn lists_as_added(
    entry: ManifestEntry,
    file: DataFile,
    version: FormatVersion,
    snapshot_id: i64,
) -> bool {
    &&& entry.status == ManifestStatus::Added
    &&& entry.data_file == file
    &&& entry.sequence_number is None
    &&& entry.file_sequence_number is None
    &&& version == FormatVersion::V1 ==> entry.snapshot_id == Some(snapshot_id)
    &&& version != FormatVersion::V1 ==> entry.snapshot_id is None
}

/// Whether the manifest is the one for the files of a producer, in their order.
pub open spec fn lists_added_files(
    added: AddedManifest,
    producer: SnapshotProducer<'_>,
) -> bool {
    let files = producer.added_data_files@;
    &&& writes_manifest(added.writer, producer, ManifestContentType::Data)
    &&& added.entries@.len() == files.len()
    &&& forall|i: int|
        0 <= i < files.len() ==> lists_as_added(
            #[trigger] added.entries@[i],
            files[i],
            producer.table.format_version,
            producer.snapshot_id,
        )
}

proof fn lemma_takes_added<'a>(
    producer: SnapshotProducer<'a>,
    added: AddedManifest,
    after: SnapshotProducer<'a>,
)
    requires
        producer.takes_added(added, after),
    ensures
        producer.added_data_files@.len() > 0,
        lists_added_files(added, producer),
        has_counted(producer, after),
        after.added_data_files@.len() == 0,
{
    lemma_manifest_path(
        producer.table.location@,
        producer.commit_uuid,
        producer.manifest_counter,
    );
}

/// The manifest of added files lists them all, in order, and leaves none behind.
/// Without added files there is an error, and nothing else changes.
pub proof fn law_take_added_manifest<'a>(
    producer: &mut SnapshotProducer<'a>,
    r: Result<AddedManifest, Error>,
)
    requires
        call_ensures(SnapshotProducer::<'a>::take_added_manifest, (producer,), r),
    ensures
        r is Ok <==> old(producer).added_data_files@.len() > 0,
        final(producer).added_data_files@.len() == 0,
        r matches Ok(added) ==> lists_added_files(added, *old(producer)) && has_counted(
            *old(producer),
            *final(producer),
        ),
        r matches Err(e) ==> {
            &&& e.kind == ErrorKind::PreconditionFailed
            &&& e.message@ == "No added data files found when write an added manifest file"@
            &&& final(producer).table == old(producer).table
            &&& final(producer).snapshot_id == old(producer).snapshot_id
            &&& final(producer).commit_uuid == old(producer).commit_uuid
            &&& final(producer).key_metadata == old(producer).key_metadata
            &&& final(producer).snapshot_properties == old(producer).snapshot_properties
            &&& final(producer).manifest_counter == old(producer).manifest_counter
        },
{
    if let Ok(added) = r {
        lemma_takes_added(*old(producer), added, *final(producer));
    }
}

/// Whether a data file can be added to the table: it holds data, it is partitioned
/// by the default spec, and its partition tuple is one of that spec's type.
pub open spec fn can_be_added(file: DataFile, table: TableMetadata) -> bool {
    &&& file.content == DataContentType::Data
    &&& file.partition_spec_id == table.default_partition_spec_id
    &&& is_tuple_of(file.partition, table.default_partition_type)
}

/// Whether this is the first reason why a data file cannot be added.
pub open spec fn cannot_be_added_for(
    file: DataFile,
    table: TableMetadata,
    fault: AddedFileFault,
) -> bool {
    match fault {
        AddedFileFault::NotData => file.content != DataContentType::Data,
        AddedFileFault::WrongSpec => file.content == DataContentType::Data && file.partition_spec_id
            != table.default_partition_spec_id,
        AddedFileFault::Partition(reason) => {
            let values = file.partition.fields@;
            let fields = table.default_partition_type.fields@;
            &&& file.content == DataContentType::Data
            &&& file.partition_spec_id == table.default_partition_spec_id
            &&& if values.len() != fields.len() {
                reason == PartitionFault::WrongLength
            } else {
                exists|i: int| #[trigger] first_refusal(values, fields, i, reason)
            }
        },
    }
}

proof fn lemma_file_fault(file: DataFile, table: TableMetadata)
    ensures
        match file_fault(file, table) {
            None => can_be_added(file, table),
            Some(fault) => !can_be_added(file, table) && cannot_be_added_for(file, table, fault),
        },
{
    let value = file.partition;
    let ty = table.default_partition_type;
    law_partition_fault_is_the_first(value, ty);
    if let Some(AddedFileFault::Partition(reason)) = file_fault(file, table) {
        if value.fields@.len() == ty.fields@.len() {
            let i = choose|i: int| #[trigger] first_refusal(value.fields@, ty.fields@, i, reason);
            assert(!is_accepted(value.fields@[i], ty.fields@[i]));
        }
    }
}

/// Whether this file is the first that cannot be added, for this reason.
pub open spec fn is_first_refused(
    files: Seq<DataFile>,
    table: TableMetadata,
    i: int,
    fault: AddedFileFault,
) -> bool {
    &&& 0 <= i < files.len()
    &&& cannot_be_added_for(files[i], table, fault)
    &&& forall|j: int| 0 <= j < i ==> can_be_added(#[trigger] files[j], table)
}

proof fn lemma_first_file_fault(files: Seq<DataFile>, table: TableMetadata, n: int)
    requires
        0 <= n <= files.len(),
    ensures
        match first_file_fault(files, table, n) {
            None => forall|i: int| 0 <= i < n ==> can_be_added(#[trigger] files[i], table),
            Some(fault) => exists|i: int|
                i < n && !can_be_added(files[i], table) && #[trigger] is_first_refused(
                    files,
                    table,
                    i,
                    fault,
                ),
        },
    decreases n,
{
    if n > 0 {
        lemma_first_file_fault(files, table, n - 1);
        lemma_file_fault(files[n - 1], table);
        match first_file_fault(files, table, n - 1) {
            Some(fault) => {
                let i = choose|i: int|
                    i < n - 1 && !can_be_added(files[i], table) && #[trigger] is_first_refused(
                        files,
                        table,
                        i,
                        fault,
                    );
                assert(i < n && is_first_refused(files, table, i, fault));
            },
            None => {
                if let Some(fault) = file_fault(files[n - 1], table) {
                    assert(is_first_refused(files, table, n - 1, fault));
                }
            },
        }
    }
}

/// Added files are accepted just when each of them can be added. Otherwise the first
/// that cannot is found, and the first reason why.
pub proof fn law_find_file_fault<'a>(
    producer: &SnapshotProducer<'a>,
    r: Option<AddedFileFault>,
)
    requires
        call_ensures(SnapshotProducer::<'a>::find_file_fault, (producer,), r),
    ensures
        r is None <==> forall|i: int|
            0 <= i < producer.added_data_files@.len() ==> can_be_added(
                #[trigger] producer.added_data_files@[i],
                *producer.table,
            ),
        r matches Some(fault) ==> exists|i: int| #[trigger]
            is_first_refused(producer.added_data_files@, *producer.table, i, fault),
{
    let files = producer.added_data_files@;
    lemma_first_file_fault(files, *producer.table, files.len() as int);
    if let Some(fault) = r {
        let i = choose|i: int|
            i < files.len() && !can_be_added(files[i], *producer.table)
                && #[trigger] is_first_refused(files, *producer.table, i, fault);
        assert(is_first_refused(files, *producer.table, i, fault));
    }
}

/// Added files are valid just when each of them can be added. Otherwise the error
/// says what is wrong with the first that cannot.
pub proof fn law_validate_added_data_files<'a>(
    producer: &SnapshotProducer<'a>,
    fault: Option<AddedFileFault>,
    r: Result<(), Error>,
)
    requires
        call_ensures(SnapshotProducer::<'a>::validate_added_data_files, (producer,), r),
        call_ensures(SnapshotProducer::<'a>::find_file_fault, (producer,), fault),
        fault != Some(AddedFileFault::Partition(PartitionFault::NestedValue)),
    ensures
        r is Ok <==> forall|i: int|
            0 <= i < producer.added_data_files@.len() ==> can_be_added(
                #[trigger] producer.added_data_files@[i],
                *producer.table,
            ),
        match fault {
            None => r is Ok,
            Some(AddedFileFault::NotData) => r matches Err(e) && e.kind == ErrorKind::DataInvalid
                && e.message@ == "Only data content type is allowed for fast append"@,
            Some(AddedFileFault::WrongSpec) => r matches Err(e) && e.kind == ErrorKind::DataInvalid
                && e.message@
                == "Data file partition spec id does not match table default partition spec id"@,
            Some(AddedFileFault::Partition(PartitionFault::WrongLength)) => r matches Err(e)
                && e.kind == ErrorKind::DataInvalid && e.message@
                == "Partition value is not compatible with partition type"@,
            Some(AddedFileFault::Partition(PartitionFault::FieldNotPrimitive)) => r matches Err(e)
                && e.kind == ErrorKind::Unexpected && e.message@
                == "Partition field should only be primitive type."@,
            Some(AddedFileFault::Partition(PartitionFault::WrongValue)) => r matches Err(e)
                && e.kind == ErrorKind::DataInvalid && e.message@
                == "Partition value is not compatible partition type"@,
            Some(AddedFileFault::Partition(PartitionFault::NestedValue)) => false,
        },
{
    law_find_file_fault(producer, fault);
}

/// Whether a live entry has the path of one of the files.
pub open spec fn takes_path_of(entry: ManifestEntry, files: Seq<DataFile>) -> bool {
    &&& entry.status != ManifestStatus::Deleted
    &&& exists|i: int|
        0 <= i < files.len() && (#[trigger] files[i]).file_path@ == entry.data_file.file_path@
}

/// The paths that entries take of files are found in order: one more entry adds its
/// path at the end just when it is live and has the path of one of them.
pub proof fn law_taken_paths_are_found_in_order(
    entries: Seq<ManifestEntry>,
    entry: ManifestEntry,
    files: Seq<DataFile>,
)
    ensures
        referenced_paths(Seq::empty(), files).len() == 0,
        takes_path_of(entry, files) ==> referenced_paths(entries.push(entry), files)
            == referenced_paths(entries, files).push(entry.data_file.file_path@),
        !takes_path_of(entry, files) ==> referenced_paths(entries.push(entry), files)
            == referenced_paths(entries, files),
{
    assert(entries.push(entry).drop_last() =~= entries);
    assert(has_path(files, entry.data_file.file_path@) <==> exists|i: int|
        0 <= i < files.len() && (#[trigger] files[i]).file_path@ == entry.data_file.file_path@);
}

/// The paths that manifests take of files are found manifest after manifest.
pub proof fn law_taken_paths_go_by_manifest(
    manifests: Seq<Vec<ManifestEntry>>,
    manifest: Vec<ManifestEntry>,
    files: Seq<DataFile>,
)
    ensures
        all_referenced_paths(Seq::empty(), files).len() == 0,
        all_referenced_paths(manifests.push(manifest), files) == all_referenced_paths(
            manifests,
            files,
        ) + referenced_paths(manifest@, files),
{
    assert(manifests.push(manifest).drop_last() =~= manifests);
}

/// Added files are taken for new just when the table has no snapshot, or no live
/// entry has the path of one of them. Otherwise the error names the paths that are
/// taken.
pub proof fn law_validate_duplicate_files<'a>(
    producer: &SnapshotProducer<'a>,
    manifests: &Vec<Vec<ManifestEntry>>,
    r: Result<(), Error>,
)
    requires
        call_ensures(
            SnapshotProducer::<'a>::validate_duplicate_files,
            (producer, manifests),
            r,
        ),
    ensures
        r is Ok <==> producer.table.current_snapshot is None || forall|m: int, i: int|
            0 <= m < manifests@.len() && 0 <= i < manifests@[m]@.len() ==> !takes_path_of(
                #[trigger] manifests@[m]@[i],
                producer.added_data_files@,
            ),
        r matches Err(e) ==> {
            &&& e.kind == ErrorKind::DataInvalid
            &&& e.message@ == "Cannot add files that are already referenced by table, files: "@
                + joined(
                all_referenced_paths(manifests@, producer.added_data_files@),
                ", "@,
            )
        },
{
    let files = producer.added_data_files@;
    crate::commit_laws::law_files_are_new_if_none_is_listed(manifests@, files);
    assert forall|m: int, i: int|
        0 <= m < manifests@.len() && 0 <= i < manifests@[m]@.len() implies (takes_path_of(
        #[trigger] manifests@[m]@[i],
        files,
    ) <==> crate::commit_laws::refers_to(manifests@[m]@[i], files)) by {
        assert(has_path(files, manifests@[m]@[i].data_file.file_path@) <==> exists|k: int|
            0 <= k < files.len() && (#[trigger] files[k]).file_path@
                == manifests@[m]@[i].data_file.file_path@);
    }
    if forall|m: int, i: int|
        0 <= m < manifests@.len() && 0 <= i < manifests@[m]@.len() ==> !takes_path_of(
            #[trigger] manifests@[m]@[i],
            files,
        ) {
        assert forall|m: int, i: int|
            0 <= m < manifests@.len() && 0 <= i < manifests@[m]@.len() implies
            !crate::commit_laws::refers_to(#[trigger] manifests@[m]@[i], files) by {
            assert(!takes_path_of(manifests@[m]@[i], files));
        }
    }
    if all_referenced_paths(manifests@, files).len() == 0 {
        assert forall|m: int, i: int|
            0 <= m < manifests@.len() && 0 <= i < manifests@[m]@.len() implies !takes_path_of(
            #[trigger] manifests@[m]@[i],
            files,
        ) by {
            assert(!crate::commit_laws::refers_to(manifests@[m]@[i], files));
        }
    }
}

/// The manifest list to check is that of the current snapshot.
pub proof fn law_manifest_list_to_check<'a>(producer: &SnapshotProducer<'a>, r: Option<&String>)
    requires
        call_ensures(SnapshotProducer::<'a>::manifest_list_to_check, (producer,), r),
    ensures
        r is Some <==> producer.table.current_snapshot is Some,
        r matches Some(path) ==> path@ == producer.table.current_snapshot->0.manifest_list@,
{
}

/// The limit on partitions in a summary is the table's property
/// "write.summary.partition-limit", or zero where that is no number.
pub proof fn law_added_files_metrics<'a>(
    producer: &SnapshotProducer<'a>,
    r: AddedFilesMetrics,
)
    requires
        call_ensures(SnapshotProducer::<'a>::added_files_metrics, (producer,), r),
    ensures
        ({
            let properties = producer.table.properties@;
            let key = "write.summary.partition-limit"@;
            &&& properties.contains_key(key) && is_number(properties[key]) ==> place_value(
                digits_of(properties[key]),
            ) == r.partition_summary_limit
            &&& !properties.contains_key(key) || !is_number(properties[key])
                ==> r.partition_summary_limit == 0
        }),
        r.schema_id == producer.table.current_schema_id,
        r.partition_spec_id == producer.table.default_partition_spec_id,
{
    law_parsed_number_is_the_value_of_its_digits(
        producer.table.properties@["write.summary.partition-limit"@],
    );
}

/// Whether this is the summary of a commit before its totals are brought up to date.
/// Whatever the operations are, it goes on from the summary of the current snapshot,
/// and from none only where the table has no snapshot. Only an overwrite counts
/// everything before it as removed.
pub open spec fn goes_on_from_current(
    update: SummaryUpdate,
    producer: SnapshotProducer<'_>,
    operation: Operation,
) -> bool {
    &&& update.summary.operation == operation
    &&& update.previous is Some <==> producer.table.current_snapshot is Some
    &&& update.previous matches Some(previous) ==> {
        let current = producer.table.current_snapshot->0.summary;
        &&& previous.operation == current.operation
        &&& previous.additional_properties@ == current.additional_properties@
    }
    &&& update.truncate_full_table <==> operation == Operation::Overwrite
}

/// Whether a summary has this property from where it should: from the processing of
/// manifests, or else from the metrics of added files, or else from the user.
pub open spec fn has_property_from(
    summary: Map<Seq<char>, Seq<char>>,
    user: Map<Seq<char>, Seq<char>>,
    added: Map<Seq<char>, Seq<char>>,
    process: Map<Seq<char>, Seq<char>>,
    key: Seq<char>,
) -> bool {
    if process.contains_key(key) {
        summary.contains_key(key) && summary[key] == process[key]
    } else if added.contains_key(key) {
        summary.contains_key(key) && summary[key] == added[key]
    } else if user.contains_key(key) {
        summary.contains_key(key) && summary[key] == user[key]
    } else {
        !summary.contains_key(key)
    }
}

/// A summary has each property from where it should, and its totals go on from the
/// current snapshot, whatever made that one.
pub proof fn law_summary<'a>(
    producer: &SnapshotProducer<'a>,
    operation: Operation,
    added: Properties,
    process: Properties,
    r: SummaryUpdate,
    key: Seq<char>,
)
    requires
        call_ensures(SnapshotProducer::<'a>::summary, (producer, operation, added, process), r),
    ensures
        goes_on_from_current(r, *producer, operation),
        has_property_from(
            r.summary.additional_properties@,
            producer.snapshot_properties@,
            added@,
            process@,
            key,
        ),
{
}

/// A manifest list is named by snapshot, attempt and commit.
pub proof fn law_generate_manifest_list_file_path<'a>(
    producer: &SnapshotProducer<'a>,
    attempt: i64,
    r: String,
)
    requires
        call_ensures(
            SnapshotProducer::<'a>::generate_manifest_list_file_path,
            (producer, attempt),
            r,
        ),
    ensures
        is_manifest_list_path(
            r@,
            producer.table.location@,
            producer.snapshot_id,
            attempt,
            producer.commit_uuid,
        ),
{
    lemma_manifest_list_path(
        producer.table.location@,
        producer.snapshot_id,
        attempt,
        producer.commit_uuid,
    );
}

/// Whether this is what the manifest list of a commit is made with: the path of its
/// first attempt, its snapshot and that before it, and from the second format
/// version on the table's next sequence number, from the third its next row id.
pub open spec fn writes_manifest_list(
    config: ManifestListConfig,
    producer: SnapshotProducer<'_>,
) -> bool {
    let table = *producer.table;
    &&& is_manifest_list_path(
        config.path@,
        table.location@,
        producer.snapshot_id,
        0,
        producer.commit_uuid,
    )
    &&& config.snapshot_id == producer.snapshot_id
    &&& config.parent_snapshot_id == parent_of(table)
    &&& match config.version {
        ManifestListVersion::V1 => table.format_version == FormatVersion::V1,
        ManifestListVersion::V2 { sequence_number } => table.format_version == FormatVersion::V2
            && sequence_number == table.next_sequence_number,
        ManifestListVersion::V3 { sequence_number, first_row_id } => table.format_version
            == FormatVersion::V3 && sequence_number == table.next_sequence_number && first_row_id
            == Some(table.next_row_id),
    }
}

/// A manifest list is made with what the table says.
pub proof fn law_manifest_list_writer<'a>(
    producer: &SnapshotProducer<'a>,
    r: ManifestListConfig,
)
    requires
        call_ensures(SnapshotProducer::<'a>::manifest_list_writer, (producer,), r),
    ensures
        writes_manifest_list(r, *producer),
{
    lemma_manifest_list_path(
        producer.table.location@,
        producer.snapshot_id,
        0,
        producer.commit_uuid,
    );
}

/// Processed manifests are what they were made of, with the properties that were
/// set, and none else.
pub proof fn law_processed_manifests(
    manifests: Vec<ManifestFile>,
    processed: ProcessedManifests,
    key: &str,
    value: String,
    more: ProcessedManifests,
    kept: ProcessedManifests,
    other: Seq<char>,
)
    requires
        call_ensures(ProcessedManifests::new, (manifests,), processed),
        call_ensures(ProcessedManifests::with_property, (processed, key, value), more),
        call_ensures(keep_manifests, (manifests,), kept),
    ensures
        processed.manifests@ == manifests@,
        !processed.summary_properties@.contains_key(other),
        more.manifests@ == manifests@,
        more.summary_properties@.contains_key(key@),
        more.summary_properties@[key@] == value@,
        other != key@ ==> !more.summary_properties@.contains_key(other),
        kept.manifests@ == manifests@,
        !kept.summary_properties@.contains_key(other),
{
}

/// A further property leaves those before it alone.
pub proof fn law_with_property(
    processed: ProcessedManifests,
    key: &str,
    value: String,
    r: ProcessedManifests,
    other: Seq<char>,
)
    requires
        call_ensures(ProcessedManifests::with_property, (processed, key, value), r),
    ensures
        r.manifests@ == processed.manifests@,
        r.summary_properties@.contains_key(key@) && r.summary_properties@[key@] == value@,
        other != key@ ==> {
            &&& r.summary_properties@.contains_key(other)
                == processed.summary_properties@.contains_key(other)
            &&& r.summary_properties@.contains_key(other) ==> r.summary_properties@[other]
                == processed.summary_properties@[other]
        },
{
}

/// A commit begins with its manifest list, and with the producer as it is.
pub proof fn law_begin_commit<'a>(
    producer: SnapshotProducer<'a>,
    operation: Operation,
    r: (ManifestListConfig, CommitBegun<'a>),
)
    requires
        call_ensures(SnapshotProducer::<'a>::begin_commit, (producer, operation), r),
    ensures
        writes_manifest_list(r.0, producer),
        r.1.producer == producer,
        r.1.operation == operation,
        r.1.manifest_list@ == r.0.path@,
{
    lemma_manifest_list_path(
        producer.table.location@,
        producer.snapshot_id,
        0,
        producer.commit_uuid,
    );
}

/// A manifest is asked for just when there are added files, and it lists them. The
/// existing manifests are taken as they are.
pub proof fn law_list_manifests<'a>(
    begun: CommitBegun<'a>,
    added_files_summary: Properties,
    existing: Vec<ManifestFile>,
    r: (Option<AddedManifest>, CommitListed<'a>),
)
    requires
        call_ensures(
            CommitBegun::<'a>::list_manifests,
            (begun, added_files_summary, existing),
            r,
        ),
    ensures
        r.0 is Some <==> begun.producer.added_data_files@.len() > 0,
        r.0 matches Some(added) ==> lists_added_files(added, begun.producer) && has_counted(
            begun.producer,
            r.1.producer,
        ),
        r.0 is None ==> r.1.producer == begun.producer,
        r.1.producer.added_data_files@.len() == 0,
        r.1.operation == begun.operation,
        r.1.manifest_list@ == begun.manifest_list@,
        r.1.added_files_summary@ == added_files_summary@,
        r.1.manifests@ == existing@,
        r.1.awaits_added == (begun.producer.added_data_files@.len() > 0),
{
    if let Some(added) = r.0 {
        lemma_takes_added(begun.producer, added, r.1.producer);
    }
}

/// The manifests to process are the existing ones, and the added one after them.
pub proof fn law_add_manifest<'a>(
    listed: CommitListed<'a>,
    added: Option<ManifestFile>,
    r: (Vec<ManifestFile>, CommitProcessing<'a>),
)
    requires
        call_ensures(CommitListed::<'a>::add_manifest, (listed, added), r),
    ensures
        added is None ==> r.0@ == listed.manifests@,
        added matches Some(manifest) ==> r.0@.len() == listed.manifests@.len() + 1 && r.0@.last()
            == manifest && r.0@.drop_last() == listed.manifests@,
        r.1.producer == listed.producer,
        r.1.operation == listed.operation,
        r.1.manifest_list@ == listed.manifest_list@,
        r.1.added_files_summary@ == listed.added_files_summary@,
{
    if let Some(manifest) = added {
        assert(r.0@.drop_last() =~= listed.manifests@);
    }
}

/// The processed manifests go to the list, and the summary is put together.
pub proof fn law_summarize<'a>(
    processing: CommitProcessing<'a>,
    processed: ProcessedManifests,
    r: (ListWork, CommitFinishing<'a>),
    key: Seq<char>,
)
    requires
        call_ensures(CommitProcessing::<'a>::summarize, (processing, processed), r),
    ensures
        r.0.manifests@ == processed.manifests@,
        goes_on_from_current(r.0.summary, processing.producer, processing.operation),
        has_property_from(
            r.0.summary.summary.additional_properties@,
            processing.producer.snapshot_properties@,
            processing.added_files_summary@,
            processed.summary_properties@,
            key,
        ),
        r.1.producer == processing.producer,
        r.1.manifest_list@ == processing.manifest_list@,
{
}

/// Whether this is the snapshot of a commit.
pub open spec fn is_snapshot_of(
    snapshot: Snapshot,
    commit: CommitFinishing<'_>,
    summary: Summary,
    next_row_id: Option<u64>,
) -> bool {
    let table = *commit.producer.table;
    &&& snapshot.snapshot_id == commit.producer.snapshot_id
    &&& snapshot.parent_snapshot_id == parent_of(table)
    &&& snapshot.sequence_number == table.next_sequence_number
    &&& snapshot.manifest_list@ == commit.manifest_list@
    &&& snapshot.summary.operation == summary.operation
    &&& snapshot.summary.additional_properties@ == summary.additional_properties@
    &&& snapshot.schema_id == Some(table.current_schema_id)
    &&& snapshot.row_range is Some <==> next_row_id is Some
    &&& snapshot.row_range matches Some(range) ==> range.0 == table.next_row_id && range.0
        + range.1 == next_row_id->0
}

/// Whether this is what a commit hands to its transaction: the snapshot is added and
/// the branch "main" set to it, without limits to how long it is kept, provided that
/// the table has the same UUID and the branch the same snapshot as before.
pub open spec fn hands_over(
    action: ActionCommit,
    commit: CommitFinishing<'_>,
    summary: Summary,
    next_row_id: Option<u64>,
    timestamp_ms: i64,
) -> bool {
    &&& action.updates@.len() == 2
    &&& action.updates@[0] matches TableUpdate::AddSnapshot { snapshot }
    &&& is_snapshot_of(snapshot, commit, summary, next_row_id)
    &&& snapshot.timestamp_ms == timestamp_ms
    &&& action.updates@[1] matches TableUpdate::SetSnapshotRef { ref_name, reference }
    &&& ref_name@ == "main"@
    &&& reference.snapshot_id == snapshot.snapshot_id
    &&& reference.retention matches SnapshotRetention::Branch {
        min_snapshots_to_keep,
        max_snapshot_age_ms,
        max_ref_age_ms,
    }
    &&& min_snapshots_to_keep is None
    &&& max_snapshot_age_ms is None
    &&& max_ref_age_ms is None
    &&& action.requirements@.len() == 2
    &&& action.requirements@[0] matches TableRequirement::UuidMatch { uuid }
    &&& uuid == commit.producer.table.uuid
    &&& action.requirements@[1] matches TableRequirement::RefSnapshotIdMatch {
        ref_name: required,
        snapshot_id,
    }
    &&& required@ == "main"@
    &&& snapshot_id == snapshot.parent_snapshot_id
}

/// A commit hands over its snapshot, with the time that it is finished at.
pub proof fn law_finish_at<'a>(
    commit: CommitFinishing<'a>,
    summary: Summary,
    next_row_id: Option<u64>,
    timestamp_ms: i64,
    r: ActionCommit,
)
    requires
        next_row_id matches Some(next) ==> next >= commit.producer.table.next_row_id,
        call_ensures(
            CommitFinishing::<'a>::finish_at,
            (commit, summary, next_row_id, timestamp_ms),
            r,
        ),
    ensures
        hands_over(r, commit, summary, next_row_id, timestamp_ms),
{
}

/// A commit hands over its snapshot, with a time that is not before the epoch.
pub proof fn law_finish<'a>(
    commit: CommitFinishing<'a>,
    summary: Summary,
    next_row_id: Option<u64>,
    r: ActionCommit,
) -> (timestamp_ms: i64)
    requires
        next_row_id matches Some(next) ==> next >= commit.producer.table.next_row_id,
        call_ensures(CommitFinishing::<'a>::finish, (commit, summary, next_row_id), r),
    ensures
        timestamp_ms >= 0,
        hands_over(r, commit, summary, next_row_id, timestamp_ms),
{
    let timestamp_ms = choose|timestamp_ms: i64|
        timestamp_ms >= 0 && commit.commits(summary, next_row_id, timestamp_ms, r);
    timestamp_ms
}

/// Added files can be checked whatever they are, as long as no partition tuple holds
/// a value that is not primitive.
pub proof fn law_any_files_can_be_checked<'a>(producer: &SnapshotProducer<'a>)
    requires
        forall|i: int, k: int|
            0 <= i < producer.added_data_files@.len() && 0 <= k
                < producer.added_data_files@[i].partition.fields@.len()
                ==> !((#[trigger] producer.added_data_files@[i].partition.fields@[k]) matches Some(
                Literal::Nested(_),
            )),
    ensures
        call_requires(SnapshotProducer::<'a>::validate_added_data_files, (producer,)),
{
    let files = producer.added_data_files@;
    let nested = AddedFileFault::Partition(PartitionFault::NestedValue);
    lemma_first_file_fault(files, *producer.table, files.len() as int);
    if first_file_fault(files, *producer.table, files.len() as int) == Some(nested) {
        let i = choose|i: int|
            i < files.len() && !can_be_added(files[i], *producer.table)
                && #[trigger] is_first_refused(files, *producer.table, i, nested);
        let values = files[i].partition.fields@;
        let fields = producer.table.default_partition_type.fields@;
        let k = choose|k: int| #[trigger]
            first_refusal(values, fields, k, PartitionFault::NestedValue);
        assert(values[k] matches Some(Literal::Nested(_)));
    }
}

/// A commit can be finished whenever the manifest list does not go back behind the
/// table's next row id, and its manifests processed whenever a manifest was written
/// just where one was asked for.
pub proof fn law_any_commit_can_be_finished<'a>(
    commit: CommitFinishing<'a>,
    summary: Summary,
    next_row_id: Option<u64>,
    timestamp_ms: i64,
    listed: CommitListed<'a>,
    added: Option<ManifestFile>,
)
    requires
        next_row_id matches Some(next) ==> commit.producer.table.next_row_id <= next,
        added is Some <==> listed.awaits_added,
    ensures
        call_requires(
            CommitFinishing::<'a>::finish_at,
            (commit, summary, next_row_id, timestamp_ms),
        ),
        call_requires(CommitFinishing::<'a>::finish, (commit, summary, next_row_id)),
        call_requires(CommitListed::<'a>::add_manifest, (listed, added)),
{
}

} // verus!
