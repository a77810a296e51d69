//! What holds of commits as a whole.

use vstd::prelude::*;

use crate::commit::CommitFinishing;
use crate::identity::{hex, hex_digit, is_fresh_id, uuid_text};
use crate::manifest::{
    DataFile, FormatVersion, ManifestContentType, ManifestEntry, ManifestFile,
};
use crate::partition::{
    field_fault, first_field_fault, partition_fault, Literal, Struct, StructType, Type,
};
use crate::snapshot::{
    added_entry, all_referenced_paths, file_fault, first_file_fault, has_path, manifest_list_path,
    manifest_path, referenced_paths, SnapshotProducer, AVRO_EXTENSION, META_ROOT_PATH,
};
use crate::table::{current_id, TableMetadata};
use crate::text::{decimal, law_decimal_reads_back};

verus! {

/// In a summary what the processing of manifests reported goes before the metrics
/// of added files, and these go before what the user asked for. Nothing else is in
/// it, and nothing gets lost that is not overwritten.
pub proof fn law_computed_properties_take_precedence(
    producer: SnapshotProducer<'_>,
    added_files: Map<Seq<char>, Seq<char>>,
    process: Map<Seq<char>, Seq<char>>,
    key: Seq<char>,
)
    ensures
        ({
            let merged = producer.merged_properties(added_files, process);
            let user = producer.snapshot_properties@;
            if process.contains_key(key) {
                merged.contains_key(key) && merged[key] == process[key]
            } else if added_files.contains_key(key) {
                merged.contains_key(key) && merged[key] == added_files[key]
            } else if user.contains_key(key) {
                merged.contains_key(key) && merged[key] == user[key]
            } else {
                !merged.contains_key(key)
            }
        }),
{
}

/// Manifests with different numbers are stored in different places.
pub proof fn law_manifest_paths_differ(
    location: Seq<char>,
    commit_uuid: u128,
    counter: u64,
    other: u64,
)
    requires
        counter != other,
    ensures
        manifest_path(location, commit_uuid, counter) != manifest_path(
            location,
            commit_uuid,
            other,
        ),
{
    let prefix = location + "/"@ + META_ROOT_PATH@ + "/"@ + uuid_text(commit_uuid) + "-m"@;
    let suffix = "."@ + AVRO_EXTENSION@;
    let path = manifest_path(location, commit_uuid, counter);
    let other_path = manifest_path(location, commit_uuid, other);
    assert(path =~= prefix + decimal(counter as nat) + suffix);
    assert(other_path =~= prefix + decimal(other as nat) + suffix);
    law_decimal_reads_back(counter);
    law_decimal_reads_back(other);
    if path == other_path {
        let n = prefix.len() as int;
        assert(decimal(counter as nat) =~= path.subrange(n, path.len() - suffix.len()));
        assert(decimal(other as nat) =~= path.subrange(n, path.len() - suffix.len()));
    }
}

/// The manifests that a producer names one after the other are stored in different
/// places.
pub proof fn law_next_manifest_is_another(producer: SnapshotProducer<'_>)
    ensures
        manifest_path(producer.table.location@, producer.commit_uuid, producer.manifest_counter)
            != manifest_path(
            producer.counted().table.location@,
            producer.counted().commit_uuid,
            producer.counted().manifest_counter,
        ),
{
    law_manifest_paths_differ(
        producer.table.location@,
        producer.commit_uuid,
        producer.manifest_counter,
        producer.counted().manifest_counter,
    );
}

proof fn lemma_hex_digits(v: nat, n: nat)
    ensures
        hex(v, n).len() == n,
        forall|i: int| 0 <= i < n ==> #[trigger] hex(v, n)[i] != 's',
    decreases n,
{
    if n > 0 {
        lemma_hex_digits(v / 16, (n - 1) as nat);
        assert(hex_digit(v % 16) != 's');
    }
}

/// No manifest is stored where the manifest list is.
pub proof fn law_manifest_list_is_no_manifest(
    location: Seq<char>,
    snapshot_id: i64,
    attempt: i64,
    commit_uuid: u128,
    counter: u64,
)
    ensures
        manifest_path(location, commit_uuid, counter) != manifest_list_path(
            location,
            snapshot_id,
            attempt,
            commit_uuid,
        ),
{
    reveal_strlit("/");
    reveal_strlit("/snap-");
    lemma_hex_digits(commit_uuid as nat, 32);
    let n = (location + "/"@ + META_ROOT_PATH@ + "/"@).len() as int;
    assert(hex(commit_uuid as nat, 32)[0] != 's');
    assert(uuid_text(commit_uuid)[0] == hex(commit_uuid as nat, 32)[0]);
    assert(manifest_path(location, commit_uuid, counter)[n] == uuid_text(commit_uuid)[0]);
    assert(manifest_list_path(location, snapshot_id, attempt, commit_uuid)[n] == 's');
}

/// A new snapshot is never taken for the one before it.
pub proof fn law_snapshot_differs_from_parent(table: TableMetadata, snapshot_id: i64)
    requires
        table.well_formed(),
        is_fresh_id(table.snapshot_ids@, snapshot_id),
    ensures
        current_id(table) != Some(snapshot_id),
{
}

/// The rows that a snapshot assigned ids to end where the next snapshot's begin.
/// Where its manifest list assigned none, there are none.
pub proof fn law_row_range_ends_at_next_row(commit: CommitFinishing<'_>, next_row_id: u64)
    requires
        next_row_id >= commit.producer.table.next_row_id,
    ensures
        ({
            let (first, count) = commit.row_range(Some(next_row_id))->0;
            &&& first == commit.producer.table.next_row_id
            &&& first + count == next_row_id
            &&& count == 0 <==> next_row_id == commit.producer.table.next_row_id
        }),
{
}

/// The live rows of a manifest. An unknown count counts as none.
pub open spec fn live_rows(manifest: ManifestFile) -> nat {
    (match manifest.added_rows_count {
        Some(rows) => rows as nat,
        None => 0,
    }) + (match manifest.existing_rows_count {
        Some(rows) => rows as nat,
        None => 0,
    })
}

/// Whether the rows of a manifest, if it has any, need no row ids: it has one
/// already, or it is no data manifest.
pub open spec fn is_numbered(manifest: ManifestFile) -> bool {
    ||| manifest.first_row_id is Some
    ||| manifest.content != ManifestContentType::Data
    ||| live_rows(manifest) == 0
}

/// Whether no manifest has rows that need row ids.
pub open spec fn all_manifests_numbered(manifests: Seq<ManifestFile>) -> bool {
    forall|i: int| 0 <= i < manifests.len() ==> is_numbered(#[trigger] manifests[i])
}

/// The rows that a manifest list has to number: those of its data manifests that
/// have no row id yet.
pub open spec fn rows_to_number(manifests: Seq<ManifestFile>) -> nat
    decreases manifests.len(),
{
    if manifests.len() == 0 {
        0
    } else {
        rows_to_number(manifests.drop_last()) + if manifests.last().content
            == ManifestContentType::Data && manifests.last().first_row_id is None {
            live_rows(manifests.last())
        } else {
            0
        }
    }
}

proof fn lemma_no_rows_to_number(manifests: Seq<ManifestFile>)
    ensures
        rows_to_number(manifests) == 0 <==> all_manifests_numbered(manifests),
    decreases manifests.len(),
{
    if manifests.len() > 0 {
        let before = manifests.drop_last();
        let n = manifests.len() - 1;
        lemma_no_rows_to_number(before);
        if rows_to_number(manifests) == 0 {
            assert forall|i: int| 0 <= i < manifests.len() implies is_numbered(
                #[trigger] manifests[i],
            ) by {
                if i < n {
                    assert(is_numbered(before[i]));
                }
            }
        } else if is_numbered(manifests[n]) {
            let i = choose|i: int| 0 <= i < before.len() && !is_numbered(#[trigger] before[i]);
            assert(!is_numbered(manifests[i]));
        }
    }
}

/// A commit consumes no row ids just when none of its manifests has rows that need
/// any, given that its manifest list numbers those rows from the table's next row
/// id on.
pub proof fn law_numbered_manifests_consume_no_row_ids(
    commit: CommitFinishing<'_>,
    manifests: Seq<ManifestFile>,
    next_row_id: u64,
)
    requires
        next_row_id == commit.producer.table.next_row_id + rows_to_number(manifests),
    ensures
        next_row_id == commit.producer.table.next_row_id <==> all_manifests_numbered(manifests),
        commit.row_range(Some(next_row_id)) == Some((commit.producer.table.next_row_id, 0u64))
            <==> all_manifests_numbered(manifests),
{
    lemma_no_rows_to_number(manifests);
}

/// From the second format version on, what is written for an added file does not
/// depend on the snapshot, so that a commit can be retried as another snapshot
/// without writing its manifest again.
pub proof fn law_added_entry_outlives_retry(
    file: DataFile,
    version: FormatVersion,
    snapshot_id: i64,
    retried_id: i64,
)
    requires
        version != FormatVersion::V1,
    ensures
        added_entry(file, version, snapshot_id) == added_entry(file, version, retried_id),
{
}

proof fn lemma_no_field_fault(values: Seq<Option<Literal>>, fields: Seq<Type>, n: int)
    ensures
        first_field_fault(values, fields, n) is None <==> forall|i: int|
            0 <= i < n ==> field_fault(#[trigger] values[i], fields[i]) is None,
    decreases n,
{
    if n > 0 {
        lemma_no_field_fault(values, fields, n - 1);
    }
}

/// A partition tuple is accepted just when it has a value for each field, and each
/// field takes its value.
pub proof fn law_partition_is_valid_if_all_fields_are(value: Struct, ty: StructType)
    ensures
        partition_fault(value, ty) is None <==> value.fields@.len() == ty.fields@.len() && forall|
            i: int,
        |
            0 <= i < value.fields@.len() ==> field_fault(
                #[trigger] value.fields@[i],
                ty.fields@[i],
            ) is None,
{
    lemma_no_field_fault(value.fields@, ty.fields@, value.fields@.len() as int);
}

proof fn lemma_no_file_fault(files: Seq<DataFile>, table: TableMetadata, n: int)
    ensures
        first_file_fault(files, table, n) is None <==> forall|i: int|
            0 <= i < n ==> file_fault(#[trigger] files[i], table) is None,
    decreases n,
{
    if n > 0 {
        lemma_no_file_fault(files, table, n - 1);
    }
}

/// Added files are accepted just when each of them is, whatever their order.
pub proof fn law_files_are_valid_if_each_is(files: Seq<DataFile>, table: TableMetadata)
    ensures
        first_file_fault(files, table, files.len() as int) is None <==> forall|file: DataFile|
            files.contains(file) ==> #[trigger] file_fault(file, table) is None,
{
    lemma_no_file_fault(files, table, files.len() as int);
    if first_file_fault(files, table, files.len() as int) is None {
        assert forall|file: DataFile| files.contains(file) implies #[trigger] file_fault(
            file,
            table,
        ) is None by {
            let i = choose|i: int| 0 <= i < files.len() && files[i] == file;
            assert(file_fault(files[i], table) is None);
        }
    } else {
        let i = choose|i: int|
            0 <= i < files.len() && file_fault(#[trigger] files[i], table) is Some;
        assert(files.contains(files[i]));
    }
}

/// Whether the entry lists one of the files as part of the table.
pub open spec fn refers_to(entry: ManifestEntry, files: Seq<DataFile>) -> bool {
    entry.alive() && has_path(files, entry.data_file.file_path@)
}

proof fn lemma_no_reference(entries: Seq<ManifestEntry>, files: Seq<DataFile>)
    ensures
        referenced_paths(entries, files).len() == 0 <==> forall|i: int|
            0 <= i < entries.len() ==> !refers_to(#[trigger] entries[i], files),
    decreases entries.len(),
{
    if entries.len() > 0 {
        let before = entries.drop_last();
        lemma_no_reference(before, files);
        let n = entries.len() - 1;
        if referenced_paths(entries, files).len() == 0 {
            assert forall|i: int| 0 <= i < entries.len() implies !refers_to(
                #[trigger] entries[i],
                files,
            ) by {
                if i < n {
                    assert(!refers_to(before[i], files));
                }
            }
        } else if !refers_to(entries[n], files) {
            let i = choose|i: int|
                0 <= i < before.len() && refers_to(#[trigger] before[i], files);
            assert(refers_to(entries[i], files));
        }
    }
}

/// Added files are taken for new just when no live entry of any manifest has the
/// path of one of them.
pub proof fn law_files_are_new_if_none_is_listed(
    manifests: Seq<Vec<ManifestEntry>>,
    files: Seq<DataFile>,
)
    ensures
        all_referenced_paths(manifests, files).len() == 0 <==> forall|m: int, i: int|
            0 <= m < manifests.len() && 0 <= i < manifests[m]@.len() ==> !refers_to(
                #[trigger] manifests[m]@[i],
                files,
            ),
    decreases manifests.len(),
{
    if manifests.len() > 0 {
        let before = manifests.drop_last();
        let n = manifests.len() - 1;
        law_files_are_new_if_none_is_listed(before, files);
        lemma_no_reference(manifests[n]@, files);
        if all_referenced_paths(manifests, files).len() == 0 {
            assert forall|m: int, i: int|
                0 <= m < manifests.len() && 0 <= i < manifests[m]@.len() implies !refers_to(
                #[trigger] manifests[m]@[i],
                files,
            ) by {
                if m < n {
                    assert(!refers_to(before[m]@[i], files));
                }
            }
        } else if referenced_paths(manifests[n]@, files).len() > 0 {
            let i = choose|i: int|
                0 <= i < manifests[n]@.len() && refers_to(#[trigger] manifests[n]@[i], files);
            assert(refers_to(manifests[n]@[i], files));
        } else {
            let (m, i) = choose|m: int, i: int|
                0 <= m < before.len() && 0 <= i < before[m]@.len() && refers_to(
                    #[trigger] before[m]@[i],
                    files,
                );
            assert(refers_to(manifests[m]@[i], files));
        }
    }
}

} // verus!
