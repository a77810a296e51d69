//! Whole commits, against a table whose files are held in memory.

use std::collections::{BTreeMap, HashMap, HashSet};

use iceberg_transaction::error::{Error, ErrorKind};
use iceberg_transaction::lineage::{find_defect, Defect, LoadedManifest};
use iceberg_transaction::manifest::{
    DataContentType, DataFile, FormatVersion, ManifestContentType, ManifestEntry, ManifestFile,
    ManifestStatus,
};
use iceberg_transaction::partition::{
    Literal, PrimitiveLiteral, PrimitiveType, Struct, StructType, Type,
};
use iceberg_transaction::properties::Properties;
use iceberg_transaction::rewrite_manifests::{
    check_sums, RewriteDecision, RewriteManifestsAction,
};
use iceberg_transaction::snapshot::{
    keep_manifests, ManifestListConfig, ManifestListVersion, ManifestWriterConfig,
    ProcessedManifests, SnapshotProducer, SummaryUpdate,
};
use iceberg_transaction::table::{
    ActionCommit, Operation, Snapshot, Summary, TableMetadata, TableRequirement, TableUpdate,
};

/// The sequence number of a manifest that has been written and not listed yet.
const UNASSIGNED: i64 = -1;

/// Manifests and manifest lists by path.
#[derive(Default)]
struct Store {
    manifests: BTreeMap<String, Vec<ManifestEntry>>,
    lists: BTreeMap<String, Vec<ManifestFile>>,
}

impl Store {
    fn write_manifest(
        &mut self,
        config: &ManifestWriterConfig,
        entries: Vec<ManifestEntry>,
    ) -> ManifestFile {
        let count = |status: ManifestStatus| {
            entries.iter().filter(|e| e.status == status).count() as u32
        };
        let rows = |status: ManifestStatus| -> u64 {
            entries.iter().filter(|e| e.status == status).map(|e| e.data_file.record_count).sum()
        };
        let written = ManifestFile {
            manifest_path: config.path.clone(),
            manifest_length: 150 + 100 * entries.len() as i64,
            partition_spec_id: config.partition_spec_id,
            content: ManifestContentType::Data,
            sequence_number: UNASSIGNED,
            min_sequence_number: entries
                .iter()
                .filter_map(|e| e.sequence_number)
                .min()
                .unwrap_or(UNASSIGNED),
            added_snapshot_id: config.snapshot_id.unwrap(),
            added_files_count: Some(count(ManifestStatus::Added)),
            existing_files_count: Some(count(ManifestStatus::Existing)),
            deleted_files_count: Some(count(ManifestStatus::Deleted)),
            added_rows_count: Some(rows(ManifestStatus::Added)),
            existing_rows_count: Some(rows(ManifestStatus::Existing)),
            deleted_rows_count: Some(rows(ManifestStatus::Deleted)),
            first_row_id: None,
            details: vec![],
        };
        let replaced = self.manifests.insert(config.path.clone(), entries);
        assert!(replaced.is_none(), "each manifest is written under a name of its own");
        written
    }

    /// Writes the list, and gives the row id that it would assign next.
    fn write_list(
        &mut self,
        config: &ManifestListConfig,
        manifests: Vec<ManifestFile>,
    ) -> Option<u64> {
        let sequence_number = match config.version {
            ManifestListVersion::V1 => 0,
            ManifestListVersion::V2 { sequence_number } => sequence_number,
            ManifestListVersion::V3 { sequence_number, .. } => sequence_number,
        };
        let mut next_row_id = match config.version {
            ManifestListVersion::V3 { first_row_id, .. } => first_row_id,
            _ => None,
        };
        let mut listed = Vec::new();
        for mut manifest in manifests {
            if manifest.sequence_number == UNASSIGNED {
                manifest.sequence_number = sequence_number;
            }
            if manifest.min_sequence_number == UNASSIGNED {
                manifest.min_sequence_number = sequence_number;
            }
            if let Some(next) = next_row_id {
                if manifest.first_row_id.is_none() {
                    manifest.first_row_id = Some(next);
                    next_row_id = Some(
                        next + manifest.added_rows_count.unwrap()
                            + manifest.existing_rows_count.unwrap(),
                    );
                }
            }
            listed.push(manifest);
        }
        self.lists.insert(config.path.clone(), listed);
        next_row_id
    }

    fn load_list(&self, path: &str) -> Vec<ManifestFile> {
        self.lists[path].clone()
    }

    /// Reads a manifest; its entries inherit what they do not store.
    fn load(&self, manifest: &ManifestFile) -> LoadedManifest {
        let mut entries = self.manifests[&manifest.manifest_path].clone();
        for entry in entries.iter_mut() {
            if entry.snapshot_id.is_none() {
                entry.snapshot_id = Some(manifest.added_snapshot_id);
            }
            if entry.sequence_number.is_none() && entry.status == ManifestStatus::Added {
                entry.sequence_number = Some(manifest.sequence_number);
                entry.file_sequence_number = Some(manifest.sequence_number);
            }
        }
        LoadedManifest { manifest_file: manifest.clone(), entries }
    }
}

/// What is said of added data files.
fn collect_metrics(files: &[DataFile]) -> Properties {
    let mut metrics = Properties::new();
    if !files.is_empty() {
        let size: u64 = files.iter().map(|f| f.file_size_in_bytes).sum();
        let records: u64 = files.iter().map(|f| f.record_count).sum();
        metrics.insert("added-data-files".to_string(), files.len().to_string());
        metrics.insert("added-files-size".to_string(), size.to_string());
        metrics.insert("added-records".to_string(), records.to_string());
    }
    metrics
}

/// Brings the totals of a summary up to date.
fn update_totals(update: SummaryUpdate) -> Summary {
    assert!(!update.truncate_full_table);
    let mut summary = update.summary;
    for (total, added) in [
        ("total-data-files", "added-data-files"),
        ("total-files-size", "added-files-size"),
        ("total-records", "added-records"),
    ] {
        let number = |properties: &Properties, key: &str| -> u64 {
            properties.get(key).map_or(0, |text| text.parse().unwrap())
        };
        let before = update.previous.as_ref().map_or(0, |p| number(&p.additional_properties, total));
        let sum = before + number(&summary.additional_properties, added);
        summary.additional_properties.insert(total.to_string(), sum.to_string());
    }
    summary
}

fn minimal_table(format_version: FormatVersion) -> TableMetadata {
    TableMetadata {
        uuid: 0x9c12d441_03fe_4693_9a96_a0705ddf69c1,
        format_version,
        location: "memory://bucket/table".to_string(),
        properties: Properties::new(),
        current_snapshot: None,
        snapshot_ids: vec![],
        current_schema_id: 0,
        default_partition_spec_id: 0,
        default_partition_type: StructType { fields: vec![Type::Primitive(PrimitiveType::Long)] },
        next_sequence_number: 1,
        next_row_id: 0,
    }
}

fn partition(value: i64) -> Struct {
    Struct { fields: vec![Some(Literal::Primitive(PrimitiveLiteral::Long(value)))] }
}

fn data_file(name: &str, partition_value: i64, size: u64, records: u64) -> DataFile {
    DataFile {
        content: DataContentType::Data,
        file_path: format!("test/{name}.parquet"),
        partition: partition(partition_value),
        partition_spec_id: 0,
        record_count: records,
        file_size_in_bytes: size,
        first_row_id: None,
        details: vec![],
    }
}

/// Runs a commit whose existing manifests are given, and whose manifests are
/// processed by the given function.
fn commit(
    store: &mut Store,
    producer: SnapshotProducer<'_>,
    operation: Operation,
    existing: Vec<ManifestFile>,
    process: impl FnOnce(Vec<ManifestFile>) -> ProcessedManifests,
) -> ActionCommit {
    let metrics = collect_metrics(&producer.added_data_files);
    let (list, begun) = producer.begin_commit(operation);
    let (added, listed) = begun.list_manifests(metrics, existing);
    let added = added.map(|a| store.write_manifest(&a.writer, a.entries));
    let (manifests, processing) = listed.add_manifest(added);
    let (work, finishing) = processing.summarize(process(manifests));
    let summary = update_totals(work.summary);
    let next_row_id = store.write_list(&list, work.manifests);
    finishing.finish(summary, next_row_id)
}

/// Applies a commit to the table.
fn apply(table: &mut TableMetadata, commit: ActionCommit) {
    for requirement in &commit.requirements {
        match requirement {
            TableRequirement::UuidMatch { uuid } => assert_eq!(*uuid, table.uuid),
            TableRequirement::RefSnapshotIdMatch { ref_name, snapshot_id } => {
                assert_eq!(ref_name, "main");
                assert_eq!(*snapshot_id, table.current_snapshot_id());
            }
        }
    }
    let mut added: Option<Snapshot> = None;
    for update in commit.updates {
        match update {
            TableUpdate::AddSnapshot { snapshot } => {
                assert!(!table.snapshot_ids.contains(&snapshot.snapshot_id));
                table.snapshot_ids.push(snapshot.snapshot_id);
                table.next_sequence_number = snapshot.sequence_number + 1;
                if let Some((first, count)) = snapshot.row_range {
                    assert_eq!(first, table.next_row_id);
                    table.next_row_id += count;
                }
                added = Some(snapshot);
            }
            TableUpdate::SetSnapshotRef { ref_name, reference } => {
                assert_eq!(ref_name, "main");
                let snapshot = added.take().unwrap();
                assert_eq!(reference.snapshot_id, snapshot.snapshot_id);
                table.current_snapshot = Some(snapshot);
            }
        }
    }
}

fn append(store: &mut Store, table: &mut TableMetadata, files: Vec<DataFile>) {
    let done = {
        let commit_uuid = table.next_sequence_number as u128;
        let producer = SnapshotProducer::new(table, commit_uuid, None, Properties::new(), files);
        assert_eq!(producer.find_file_fault(), None);
        assert_eq!(producer.validate_added_data_files(), Ok(()));
        let existing = match producer.manifest_list_to_check() {
            Some(path) => store.load_list(path),
            None => vec![],
        };
        let entries: Vec<Vec<ManifestEntry>> =
            existing.iter().map(|m| store.load(m).entries).collect();
        assert_eq!(producer.validate_duplicate_files(&entries), Ok(()));
        commit(store, producer, Operation::Append, existing, keep_manifests)
    };
    apply(table, done);
}

fn rewrite(
    store: &mut Store,
    table: &TableMetadata,
    action: &RewriteManifestsAction,
) -> Result<ActionCommit, Error> {
    let path = action.manifest_list_to_rewrite(table)?;
    let manifests = store.load_list(path);
    assert!(check_sums(&manifests, table.default_partition_spec_id));
    match action.decide(table, manifests)? {
        RewriteDecision::Done(done) => Ok(done),
        RewriteDecision::Rewrite { producer, operation, process } => {
            assert!(operation.delete_entries().is_empty());
            let metrics = collect_metrics(&producer.added_data_files);
            let (list, begun) = producer.begin_commit(operation.operation());
            let (added, listed) = begun.list_manifests(metrics, operation.existing_manifest());
            assert!(added.is_none());
            let (kept, mut processing) = listed.add_manifest(None);
            let loaded: Vec<LoadedManifest> =
                process.to_rewrite.iter().map(|m| store.load(m)).collect();
            assert_ne!(find_defect(&loaded), Some(Defect::RowIdOverflow));
            let mut under_way = process.process_manifests(table.format_version, loaded)?;
            while let Some(manifest) = under_way.next_manifest(&mut processing.producer) {
                let entries = manifest
                    .entries
                    .into_iter()
                    .map(|e| ManifestEntry {
                        status: ManifestStatus::Existing,
                        snapshot_id: Some(e.snapshot_id),
                        sequence_number: Some(e.sequence_number),
                        file_sequence_number: e.file_sequence_number,
                        data_file: e.data_file,
                    })
                    .collect();
                let written = store.write_manifest(&manifest.writer, entries);
                under_way.manifest_written(written);
            }
            let (work, finishing) = processing.summarize(under_way.finish(kept));
            let summary = update_totals(work.summary);
            let next_row_id = store.write_list(&list, work.manifests);
            Ok(finishing.finish(summary, next_row_id))
        }
    }
}

fn current_manifests(store: &Store, table: &TableMetadata) -> Vec<ManifestFile> {
    store.load_list(&table.current_snapshot.as_ref().unwrap().manifest_list)
}

fn summary_value<'a>(table: &'a TableMetadata, key: &str) -> &'a str {
    table.current_snapshot.as_ref().unwrap().summary.additional_properties.get(key).unwrap()
}

#[test]
fn test_no_current_snapshot_errors() {
    let table = minimal_table(FormatVersion::V2);
    let action = RewriteManifestsAction::new();
    match rewrite(&mut Store::default(), &table, &action) {
        Ok(_) => panic!("expected error"),
        Err(e) => {
            assert_eq!(e.kind, ErrorKind::PreconditionFailed);
            assert_eq!(
                e.message,
                "RewriteManifests requires the table to have a current snapshot"
            );
        }
    }
    assert!(action.select(&table, vec![]).is_err());
    assert!(action.decide(&table, vec![]).is_err());
}

#[test]
fn test_single_small_manifest_is_noop() {
    let mut store = Store::default();
    let mut table = minimal_table(FormatVersion::V3);
    append(&mut store, &mut table, vec![data_file("a", 1, 100, 1)]);
    let original_snapshot_id = table.current_snapshot_id();

    let commit = rewrite(&mut store, &table, &RewriteManifestsAction::new()).unwrap();
    assert!(commit.updates.is_empty());
    assert!(commit.requirements.is_empty());

    apply(&mut table, commit);
    assert_eq!(
        table.current_snapshot_id(),
        original_snapshot_id,
        "no-op should not change the current snapshot"
    );
}

#[test]
fn test_multi_manifest_merge_preserves_sequence_numbers() {
    let mut store = Store::default();
    let mut table = minimal_table(FormatVersion::V3);
    append(&mut store, &mut table, vec![data_file("a", 1, 1_000, 10)]);
    let seq_a = table.current_snapshot.as_ref().unwrap().sequence_number;
    append(&mut store, &mut table, vec![data_file("b", 1, 2_000, 20)]);
    let seq_b = table.current_snapshot.as_ref().unwrap().sequence_number;
    append(&mut store, &mut table, vec![data_file("c", 2, 3_000, 30)]);
    let seq_c = table.current_snapshot.as_ref().unwrap().sequence_number;
    assert!(seq_a < seq_b && seq_b < seq_c);

    let pre_manifest_count = current_manifests(&store, &table).len();
    assert_eq!(pre_manifest_count, 3);

    let commit = rewrite(&mut store, &table, &RewriteManifestsAction::new()).unwrap();
    apply(&mut table, commit);
    assert_eq!(table.current_snapshot.as_ref().unwrap().summary.operation, Operation::Replace);

    let post_list = current_manifests(&store, &table);
    let mut seen_seqs: Vec<i64> = Vec::new();
    for m in &post_list {
        for entry in store.load(m).entries {
            seen_seqs.push(entry.sequence_number.unwrap());
        }
    }
    assert_eq!(seen_seqs.len(), 3, "all entries preserved across rewrite");
    seen_seqs.sort();
    assert_eq!(seen_seqs, vec![seq_a, seq_b, seq_c]);
    assert!(post_list.len() < pre_manifest_count);

    assert_eq!(summary_value(&table, "total-records"), "60");
    assert_eq!(summary_value(&table, "total-data-files"), "3");
    assert_eq!(summary_value(&table, "entries-processed"), "3");
    assert_eq!(summary_value(&table, "manifests-replaced"), "3");
}

#[test]
fn test_target_size_from_table_property() {
    let mut store = Store::default();
    let mut table = minimal_table(FormatVersion::V3);
    for i in 0..6 {
        append(&mut store, &mut table, vec![data_file(&format!("f{i}"), 1, 10_000, 1)]);
    }
    table.properties.insert("commit.manifest.target-size-bytes".to_string(), "400".to_string());

    let commit = rewrite(&mut store, &table, &RewriteManifestsAction::new()).unwrap();
    apply(&mut table, commit);
    assert!(current_manifests(&store, &table).len() > 1);
}

#[test]
fn test_target_size_rolls_multiple_manifests() {
    let mut store = Store::default();
    let mut table = minimal_table(FormatVersion::V3);
    for i in 0..6 {
        append(&mut store, &mut table, vec![data_file(&format!("f{i}"), 1, 10_000, 1)]);
    }

    let action = RewriteManifestsAction::new().set_target_size_bytes(400);
    let commit = rewrite(&mut store, &table, &action).unwrap();
    apply(&mut table, commit);

    let post_list = current_manifests(&store, &table);
    assert!(post_list.len() > 1);
    let mut total = 0;
    for m in &post_list {
        let n = store.load(m).entries.len();
        assert!(
            n <= 2,
            "each rolled manifest should hold at most ~2 entries when target is just above bytes_per_entry"
        );
        total += n;
    }
    assert_eq!(total, 6);
}

#[test]
fn test_oversized_single_manifest_is_split() {
    let mut store = Store::default();
    let mut table = minimal_table(FormatVersion::V3);
    let files: Vec<DataFile> =
        (0..6).map(|i| data_file(&format!("f{i}"), 1, 10_000, 1)).collect();
    append(&mut store, &mut table, files);
    assert_eq!(current_manifests(&store, &table).len(), 1);

    let action = RewriteManifestsAction::new().set_target_size_bytes(400);
    let commit = rewrite(&mut store, &table, &action).unwrap();
    apply(&mut table, commit);

    let post_list = current_manifests(&store, &table);
    assert!(post_list.len() > 1);
    assert_eq!(summary_value(&table, "manifests-replaced"), "1");
    let total: usize = post_list.iter().map(|m| store.load(m).entries.len()).sum();
    assert_eq!(total, 6);
}

#[test]
fn test_v3_row_lineage_preserved() {
    let mut store = Store::default();
    let mut table = minimal_table(FormatVersion::V3);
    append(&mut store, &mut table, vec![data_file("a", 1, 100, 30)]);
    append(&mut store, &mut table, vec![data_file("b", 1, 100, 17)]);
    append(&mut store, &mut table, vec![data_file("c", 1, 100, 11)]);

    let collect = |store: &Store, table: &TableMetadata| {
        let mut v: Vec<(String, Option<i64>, Option<i64>, Option<i64>)> = Vec::new();
        for m in current_manifests(store, table) {
            let mut inherited_row_id = m.first_row_id.map(|b| b as i64);
            for entry in store.load(&m).entries {
                let own = entry.data_file.first_row_id;
                let effective = own.or(inherited_row_id);
                if own.is_none() {
                    inherited_row_id =
                        inherited_row_id.map(|base| base + entry.data_file.record_count as i64);
                }
                v.push((
                    entry.data_file.file_path,
                    effective,
                    entry.sequence_number,
                    entry.file_sequence_number,
                ));
            }
        }
        v.sort();
        v
    };

    let pre = collect(&store, &table);
    let next_row_id_before = table.next_row_id;
    assert_eq!(next_row_id_before, 58);

    let commit = rewrite(&mut store, &table, &RewriteManifestsAction::new()).unwrap();
    apply(&mut table, commit);

    assert_eq!(table.next_row_id, next_row_id_before, "rewrite must not consume new row ids");
    assert_eq!(
        table.current_snapshot.as_ref().unwrap().row_range,
        Some((next_row_id_before, 0))
    );
    assert_eq!(
        pre,
        collect(&store, &table),
        "first_row_id, sequence_number, and file_sequence_number must be preserved per-entry"
    );
}

#[test]
fn test_summary_and_replace_operation() {
    let mut store = Store::default();
    let mut table = minimal_table(FormatVersion::V3);
    append(&mut store, &mut table, vec![data_file("a", 1, 100, 10)]);
    append(&mut store, &mut table, vec![data_file("b", 2, 200, 20)]);
    let pre_total_files_size = summary_value(&table, "total-files-size").to_string();

    let mut properties = Properties::new();
    properties.insert("trigger".to_string(), "manual".to_string());
    let action = RewriteManifestsAction::new().set_snapshot_properties(properties);
    let commit = rewrite(&mut store, &table, &action).unwrap();
    let TableUpdate::AddSnapshot { snapshot: snap } = &commit.updates[0] else {
        unreachable!()
    };
    let value = |key: &str| snap.summary.additional_properties.get(key).unwrap().as_str();
    assert_eq!(snap.summary.operation, Operation::Replace);
    assert_eq!(value("trigger"), "manual");
    assert_eq!(value("entries-processed"), "2");
    assert_eq!(value("manifests-replaced"), "2");
    assert_eq!(value("manifests-kept"), "0");
    assert_eq!(value("manifests-created"), "2");
    assert_eq!(value("total-records"), "30");
    assert_eq!(value("total-files-size"), pre_total_files_size);
}

#[test]
fn test_idempotent_after_consolidation() {
    let mut store = Store::default();
    let mut table = minimal_table(FormatVersion::V3);
    for i in 0..3 {
        append(&mut store, &mut table, vec![data_file(&format!("f{i}"), 1, 100, 1)]);
    }

    let commit = rewrite(&mut store, &table, &RewriteManifestsAction::new()).unwrap();
    apply(&mut table, commit);
    assert_eq!(
        current_manifests(&store, &table).len(),
        1,
        "single partition consolidates to 1 manifest"
    );

    let commit2 = rewrite(&mut store, &table, &RewriteManifestsAction::new()).unwrap();
    assert!(
        commit2.updates.is_empty(),
        "second rewrite must no-op when input already fits in one manifest"
    );
}

#[test]
fn test_partition_grouping_and_catalog_commit() {
    let mut store = Store::default();
    let mut table = minimal_table(FormatVersion::V3);
    append(&mut store, &mut table, vec![data_file("a", 1, 100, 1)]);
    append(&mut store, &mut table, vec![data_file("b", 1, 100, 1)]);
    append(&mut store, &mut table, vec![data_file("c", 2, 100, 1)]);
    append(&mut store, &mut table, vec![data_file("d", 2, 100, 1)]);
    let pre_id = table.current_snapshot_id().unwrap();
    let pre_seq = table.current_snapshot.as_ref().unwrap().sequence_number;

    let commit = rewrite(&mut store, &table, &RewriteManifestsAction::new()).unwrap();
    apply(&mut table, commit);

    let snap = table.current_snapshot.as_ref().unwrap();
    assert_eq!(snap.parent_snapshot_id, Some(pre_id));
    assert_eq!(snap.sequence_number, pre_seq + 1);
    assert_ne!(snap.snapshot_id, pre_id);

    let post_list = current_manifests(&store, &table);
    assert_eq!(post_list.len(), 2);
    for m in &post_list {
        let partitions: HashSet<i64> = store
            .load(m)
            .entries
            .iter()
            .map(|e| match &e.data_file.partition.fields[0] {
                Some(Literal::Primitive(PrimitiveLiteral::Long(v))) => *v,
                _ => unreachable!(),
            })
            .collect();
        assert_eq!(
            partitions.len(),
            1,
            "all entries within a manifest share one partition tuple"
        );
    }
}

/// Each live entry's stored row id by file path. Every rewritten entry stores one,
/// and each manifest's row id is the smallest of its entries'.
fn explicit_row_ids_by_path(store: &Store, table: &TableMetadata) -> HashMap<String, i64> {
    let mut by_path = HashMap::new();
    for m in current_manifests(store, table) {
        let mut min_row_id: Option<i64> = None;
        for entry in store.load(&m).entries {
            let row_id = entry
                .data_file
                .first_row_id
                .expect("rewritten entries must store first_row_id explicitly");
            min_row_id = Some(min_row_id.map_or(row_id, |v| v.min(row_id)));
            by_path.insert(entry.data_file.file_path, row_id);
        }
        assert_eq!(
            m.first_row_id,
            min_row_id.map(|v| v as u64),
            "a rewritten manifest's first_row_id must be the minimum of its entries' explicit values"
        );
    }
    by_path
}

#[test]
fn test_rewrite_materializes_inherited_first_row_ids() {
    let mut store = Store::default();
    let mut table = minimal_table(FormatVersion::V3);
    let base = table.next_row_id as i64;
    append(
        &mut store,
        &mut table,
        vec![
            data_file("a", 1, 100, 10),
            data_file("b", 1, 100, 20),
            data_file("c", 1, 100, 30),
        ],
    );
    append(&mut store, &mut table, vec![data_file("d", 1, 100, 5)]);
    let next_row_id_before = table.next_row_id;

    for m in current_manifests(&store, &table) {
        assert!(m.first_row_id.is_some());
        for entry in store.load(&m).entries {
            assert!(entry.data_file.first_row_id.is_none());
        }
    }

    let commit = rewrite(&mut store, &table, &RewriteManifestsAction::new()).unwrap();
    apply(&mut table, commit);
    assert_eq!(table.next_row_id, next_row_id_before, "rewrite must not consume new row ids");
    let mut expected: HashMap<String, i64> = HashMap::from([
        ("test/a.parquet".to_string(), base),
        ("test/b.parquet".to_string(), base + 10),
        ("test/c.parquet".to_string(), base + 30),
        ("test/d.parquet".to_string(), base + 60),
    ]);
    assert_eq!(explicit_row_ids_by_path(&store, &table), expected);

    append(&mut store, &mut table, vec![data_file("e", 1, 100, 7)]);
    let next_row_id_before = table.next_row_id;
    let commit = rewrite(&mut store, &table, &RewriteManifestsAction::new()).unwrap();
    apply(&mut table, commit);
    assert_eq!(table.next_row_id, next_row_id_before);
    expected.insert("test/e.parquet".to_string(), base + 65);
    assert_eq!(explicit_row_ids_by_path(&store, &table), expected);
}

#[test]
fn test_process_summary_properties_reach_snapshot_summary() {
    let table = minimal_table(FormatVersion::V2);
    let file = DataFile {
        content: DataContentType::Data,
        file_path: "test/1.parquet".to_string(),
        partition: partition(300),
        partition_spec_id: table.default_partition_spec_id,
        record_count: 1,
        file_size_in_bytes: 100,
        first_row_id: None,
        details: vec![],
    };
    let mut snapshot_properties = Properties::new();
    snapshot_properties.insert("user-key".to_string(), "user-value".to_string());
    snapshot_properties.insert("added-data-files".to_string(), "999".to_string());
    snapshot_properties.insert("shared-key".to_string(), "user-value".to_string());
    let commit_uuid = uuid::Uuid::now_v7().as_u128();
    let producer =
        SnapshotProducer::new(&table, commit_uuid, None, snapshot_properties, vec![file]);

    let mut store = Store::default();
    let action_commit = commit(&mut store, producer, Operation::Append, vec![], |manifests| {
        ProcessedManifests::new(manifests)
            .with_property("manifests-created", "7".to_string())
            .with_property("shared-key", "process-value".to_string())
    });
    let TableUpdate::AddSnapshot { snapshot } = &action_commit.updates[0] else {
        panic!("first update should be AddSnapshot");
    };
    let value = |key: &str| snapshot.summary.additional_properties.get(key).unwrap().as_str();

    // Properties reported by the manifest process are part of the summary.
    assert_eq!(value("manifests-created"), "7");
    // Non-colliding user properties are preserved.
    assert_eq!(value("user-key"), "user-value");
    // Computed metrics overwrite colliding user-supplied values.
    assert_eq!(value("added-data-files"), "1");
    // Process-reported properties overwrite colliding user-supplied values.
    assert_eq!(value("shared-key"), "process-value");
    // Totals are derived against the fully-assembled property map.
    assert_eq!(value("total-data-files"), "1");
}

#[test]
fn kept_manifests_follow_the_new_ones() {
    let mut store = Store::default();
    let mut table = minimal_table(FormatVersion::V2);
    append(&mut store, &mut table, vec![data_file("a", 1, 100, 1)]);
    append(&mut store, &mut table, vec![data_file("b", 1, 100, 2)]);
    let list = table.current_snapshot.as_ref().unwrap().manifest_list.clone();
    let deletes = ManifestFile {
        manifest_path: "memory://bucket/table/metadata/deletes.avro".to_string(),
        content: ManifestContentType::Deletes,
        ..store.load_list(&list)[0].clone()
    };
    store.lists.get_mut(&list).unwrap().insert(0, deletes.clone());

    let commit = rewrite(&mut store, &table, &RewriteManifestsAction::new()).unwrap();
    apply(&mut table, commit);
    let manifests = current_manifests(&store, &table);
    assert_eq!(manifests.len(), 2);
    assert_eq!(manifests[1], deletes);
    assert_eq!(manifests[0].first_row_id, None);
    assert_eq!(manifests[0].existing_files_count, Some(2));
    assert_eq!(manifests[0].added_files_count, Some(0));
    assert_eq!(summary_value(&table, "manifests-created"), "1");
    assert_eq!(summary_value(&table, "manifests-replaced"), "2");
    assert_eq!(summary_value(&table, "manifests-kept"), "1");
    assert_eq!(summary_value(&table, "entries-processed"), "2");

    // The kept manifest stays kept, and the new one needs no rewrite.
    let again = rewrite(&mut store, &table, &RewriteManifestsAction::new()).unwrap();
    assert!(again.updates.is_empty());
}
