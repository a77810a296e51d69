//! Selection, lifting, grouping and rolling of entries.

use iceberg_transaction::error::ErrorKind;
use iceberg_transaction::grouping::group_by_partition;
use iceberg_transaction::lineage::{
    find_defect, lift_live_entries, Defect, ExistingEntry, LoadedManifest,
};
use iceberg_transaction::manifest::{
    DataContentType, DataFile, FormatVersion, ManifestContentType, ManifestEntry, ManifestFile,
    ManifestStatus,
};
use iceberg_transaction::partition::{Literal, PrimitiveLiteral, Struct, StructType};
use iceberg_transaction::properties::Properties;
use iceberg_transaction::rewrite_manifests::{
    check_sums, RewriteDecision, RewriteManifestsAction, RewriteManifestsOperation,
    RewriteManifestsProcess, Selection, FALLBACK_BYTES_PER_ENTRY,
};
use iceberg_transaction::rolling::{roll_group, PlannedManifest};
use iceberg_transaction::snapshot::SnapshotProducer;
use iceberg_transaction::table::{Operation, Snapshot, Summary, TableMetadata};

fn file(path: &str, partition: i64, records: u64, first_row_id: Option<i64>) -> DataFile {
    DataFile {
        content: DataContentType::Data,
        file_path: path.to_string(),
        partition: Struct {
            fields: vec![Some(Literal::Primitive(PrimitiveLiteral::Long(partition)))],
        },
        partition_spec_id: 0,
        record_count: records,
        file_size_in_bytes: 100,
        first_row_id,
        details: vec![7, 8],
    }
}

fn entry(status: ManifestStatus, data_file: DataFile) -> ManifestEntry {
    ManifestEntry {
        status,
        snapshot_id: Some(11),
        sequence_number: Some(22),
        file_sequence_number: Some(33),
        data_file,
    }
}

fn existing(path: &str, partition: i64, first_row_id: Option<i64>) -> ExistingEntry {
    ExistingEntry {
        data_file: file(path, partition, 1, first_row_id),
        snapshot_id: 11,
        sequence_number: 22,
        file_sequence_number: None,
    }
}

fn manifest(path: &str, length: i64, added: Option<u32>, existing: Option<u32>) -> ManifestFile {
    ManifestFile {
        manifest_path: path.to_string(),
        manifest_length: length,
        partition_spec_id: 0,
        content: ManifestContentType::Data,
        sequence_number: 1,
        min_sequence_number: 1,
        added_snapshot_id: 5,
        added_files_count: added,
        existing_files_count: existing,
        deleted_files_count: Some(0),
        added_rows_count: None,
        existing_rows_count: None,
        deleted_rows_count: None,
        first_row_id: None,
        details: vec![],
    }
}

fn loaded(first_row_id: Option<u64>, entries: Vec<ManifestEntry>) -> LoadedManifest {
    let manifest_file = ManifestFile { first_row_id, ..manifest("m", 1, None, None) };
    LoadedManifest { manifest_file, entries }
}

fn table(format_version: FormatVersion) -> TableMetadata {
    TableMetadata {
        uuid: 1,
        format_version,
        location: "loc".to_string(),
        properties: Properties::new(),
        current_snapshot: Some(Snapshot {
            snapshot_id: 5,
            parent_snapshot_id: None,
            sequence_number: 1,
            timestamp_ms: 0,
            manifest_list: "loc/metadata/list.avro".to_string(),
            summary: Summary {
                operation: Operation::Append,
                additional_properties: Properties::new(),
            },
            schema_id: None,
            row_range: None,
        }),
        snapshot_ids: vec![5],
        current_schema_id: 0,
        default_partition_spec_id: 0,
        default_partition_type: StructType { fields: vec![] },
        next_sequence_number: 2,
        next_row_id: 0,
    }
}

fn paths(entries: &[ExistingEntry]) -> Vec<&str> {
    entries.iter().map(|e| e.data_file.file_path.as_str()).collect()
}

fn row_ids(entries: &[ExistingEntry]) -> Vec<Option<i64>> {
    entries.iter().map(|e| e.data_file.first_row_id).collect()
}

fn roll(entries: Vec<ExistingEntry>, bytes_per_entry: u64, target: u64) -> Vec<PlannedManifest> {
    let mut planned = Vec::new();
    roll_group(&mut planned, entries, bytes_per_entry, target);
    planned
}

fn five() -> Vec<ExistingEntry> {
    ["a", "b", "c", "d", "e"].iter().map(|p| existing(p, 1, None)).collect()
}

fn sizes(planned: &[PlannedManifest]) -> Vec<usize> {
    planned.iter().map(|p| p.entries.len()).collect()
}

#[test]
fn lifting_writes_inherited_row_ids_out() {
    let entries = vec![
        entry(ManifestStatus::Added, file("a", 1, 10, None)),
        entry(ManifestStatus::Deleted, file("b", 1, 20, None)),
        entry(ManifestStatus::Existing, file("c", 1, 40, Some(7))),
        entry(ManifestStatus::Existing, file("d", 1, 80, None)),
    ];
    let manifests = vec![loaded(Some(1000), entries)];
    assert_eq!(find_defect(&manifests), None);
    let lifted = lift_live_entries(manifests);
    assert_eq!(paths(&lifted), vec!["a", "c", "d"]);
    // A deleted entry takes row ids too; a stored row id takes none.
    assert_eq!(row_ids(&lifted), vec![Some(1000), Some(7), Some(1030)]);
    assert_eq!(lifted[0].snapshot_id, 11);
    assert_eq!(lifted[0].sequence_number, 22);
    assert_eq!(lifted[0].file_sequence_number, Some(33));
    assert_eq!(lifted[0].data_file.details, vec![7, 8]);
}

#[test]
fn lifting_without_a_base_leaves_row_ids_out() {
    let entries = vec![
        entry(ManifestStatus::Added, file("a", 1, 10, None)),
        entry(ManifestStatus::Added, file("b", 1, 10, Some(3))),
    ];
    let lifted = lift_live_entries(vec![loaded(None, entries)]);
    assert_eq!(row_ids(&lifted), vec![None, Some(3)]);
}

#[test]
fn defects_are_found_in_reading_order() {
    let good = entry(ManifestStatus::Added, file("a", 1, 1, None));
    let no_snapshot = ManifestEntry { snapshot_id: None, ..good.clone() };
    let no_sequence = ManifestEntry { sequence_number: None, ..good.clone() };
    let neither = ManifestEntry { snapshot_id: None, ..no_sequence.clone() };
    let dead = ManifestEntry { status: ManifestStatus::Deleted, ..neither.clone() };
    let one = |e: &ManifestEntry| loaded(None, vec![e.clone()]);

    assert_eq!(find_defect(&vec![]), None);
    assert_eq!(find_defect(&vec![one(&good), one(&dead)]), None);
    assert_eq!(find_defect(&vec![one(&no_snapshot)]), Some(Defect::MissingSnapshotId));
    assert_eq!(find_defect(&vec![one(&no_sequence)]), Some(Defect::MissingSequenceNumber));
    assert_eq!(find_defect(&vec![one(&neither)]), Some(Defect::MissingSnapshotId));
    assert_eq!(
        find_defect(&vec![one(&good), one(&no_sequence), one(&no_snapshot)]),
        Some(Defect::MissingSequenceNumber)
    );
    let full = loaded(Some(i64::MAX as u64), vec![good.clone()]);
    assert_eq!(find_defect(&vec![full]), Some(Defect::RowIdOverflow));
    let just_fits = loaded(Some(i64::MAX as u64 - 1), vec![good]);
    assert_eq!(find_defect(&vec![just_fits]), None);
}

#[test]
fn grouping_keeps_first_occurrence_order() {
    let entries = vec![
        existing("a", 2, None),
        existing("b", 1, None),
        existing("c", 2, None),
        existing("d", 3, None),
        existing("e", 1, None),
    ];
    let groups = group_by_partition(entries);
    let grouped: Vec<Vec<&str>> = groups.iter().map(|g| paths(g)).collect();
    assert_eq!(grouped, vec![vec!["a", "c"], vec!["b", "e"], vec!["d"]]);
    assert!(group_by_partition(vec![]).is_empty());
}

#[test]
fn grouping_takes_equal_floats_for_one_partition() {
    let with = |path: &str, bits: u64| ExistingEntry {
        data_file: DataFile {
            partition: Struct {
                fields: vec![Some(Literal::Primitive(PrimitiveLiteral::Double(bits)))],
            },
            ..file(path, 0, 1, None)
        },
        ..existing(path, 0, None)
    };
    let groups = group_by_partition(vec![
        with("zero", 0.0f64.to_bits()),
        with("one", 1.0f64.to_bits()),
        with("minus zero", (-0.0f64).to_bits()),
        with("nan", f64::NAN.to_bits()),
        with("other nan", f64::NAN.to_bits() | 1),
        with("minus one", (-1.0f64).to_bits()),
    ]);
    let grouped: Vec<Vec<&str>> = groups.iter().map(|g| paths(g)).collect();
    assert_eq!(
        grouped,
        vec![
            vec!["zero", "minus zero"],
            vec!["one"],
            vec!["nan", "other nan"],
            vec!["minus one"],
        ]
    );
}

#[test]
fn rolling_fills_manifests_up_to_the_target() {
    assert_eq!(sizes(&roll(five(), 100, 250)), vec![2, 2, 1]);
    assert_eq!(sizes(&roll(five(), 100, 200)), vec![2, 2, 1]);
    assert_eq!(sizes(&roll(five(), 100, 199)), vec![1, 1, 1, 1, 1]);
    assert_eq!(sizes(&roll(five(), 100, 500)), vec![5]);
    assert_eq!(sizes(&roll(five(), 100, 499)), vec![4, 1]);
}

#[test]
fn rolling_never_writes_an_empty_manifest_for_a_large_entry() {
    assert_eq!(sizes(&roll(five(), 100, 0)), vec![1, 1, 1, 1, 1]);
    assert_eq!(sizes(&roll(five(), u64::MAX, 10)), vec![1, 1, 1, 1, 1]);
}

#[test]
fn rolling_never_exceeds_the_largest_target() {
    assert_eq!(sizes(&roll(five(), u64::MAX, u64::MAX)), vec![5]);
    assert_eq!(sizes(&roll(five(), 0, 0)), vec![5]);
}

#[test]
fn rolling_records_the_smallest_row_id() {
    let entries = vec![
        existing("a", 1, Some(30)),
        existing("b", 1, Some(10)),
        existing("c", 1, Some(-5)),
        existing("d", 1, None),
        existing("e", 1, Some(0)),
    ];
    let planned = roll(entries, 100, 200);
    let ids: Vec<Option<u64>> = planned.iter().map(|p| p.first_row_id).collect();
    assert_eq!(ids, vec![Some(10), None, Some(0)]);
}

#[test]
fn a_manifest_has_a_row_id_if_one_of_its_entries_has() {
    let first_row_id = |ids: &[Option<i64>]| {
        let entries = ids.iter().map(|id| existing("a", 1, *id)).collect();
        roll(entries, 100, 1000)[0].first_row_id
    };
    assert_eq!(first_row_id(&[Some(-5), Some(7)]), Some(7));
    assert_eq!(first_row_id(&[None, Some(7), Some(i64::MIN)]), Some(7));
    assert_eq!(first_row_id(&[Some(-5), None]), None);
}

#[test]
fn rolling_appends_to_what_is_planned() {
    let mut planned = roll(five(), 100, 300);
    roll_group(&mut planned, vec![existing("f", 2, None)], 100, 300);
    assert_eq!(sizes(&planned), vec![3, 2, 1]);
    assert_eq!(paths(&planned[2].entries), vec!["f"]);
}

fn selection(action: &RewriteManifestsAction, manifests: Vec<ManifestFile>) -> Selection {
    action.select(&table(FormatVersion::V2), manifests).unwrap()
}

fn selected(action: &RewriteManifestsAction, manifests: Vec<ManifestFile>) -> (u64, u64) {
    match selection(action, manifests) {
        Selection::Rewrite { process, .. } => (process.target_size_bytes, process.bytes_per_entry),
        Selection::Nothing => panic!("expected a rewrite"),
    }
}

#[test]
fn selection_tells_manifests_apart() {
    let a = manifest("a", 100, Some(1), Some(0));
    let deletes = ManifestFile {
        content: ManifestContentType::Deletes,
        ..manifest("deletes", 100, Some(1), Some(0))
    };
    let other_spec =
        ManifestFile { partition_spec_id: 1, ..manifest("other", 100, Some(1), Some(0)) };
    let dead = manifest("dead", 100, Some(0), Some(0));
    let b = manifest("b", 100, Some(0), Some(2));
    let unknown = manifest("unknown", 100, None, None);
    let all = vec![deletes, a, other_spec, dead, b, unknown];
    assert!(check_sums(&all, 0));
    let Selection::Rewrite { operation, process } = selection(&RewriteManifestsAction::new(), all)
    else {
        panic!("expected a rewrite")
    };
    let names = |manifests: &[ManifestFile]| -> Vec<String> {
        manifests.iter().map(|m| m.manifest_path.clone()).collect()
    };
    assert_eq!(names(&process.to_rewrite), vec!["a", "b", "unknown"]);
    assert_eq!(names(&operation.kept), vec!["deletes", "other", "dead"]);
    assert_eq!(operation.existing_manifest(), operation.kept);
    assert_eq!(operation.operation(), Operation::Replace);
    assert!(operation.delete_entries().is_empty());
    assert_eq!(process.target_size_bytes, 8_388_608);
    assert_eq!(process.bytes_per_entry, 100);
}

#[test]
fn selection_leaves_what_fits_alone() {
    let action = RewriteManifestsAction::new().set_target_size_bytes(100);
    let single = |length: i64| vec![manifest("a", length, Some(1), None)];
    assert!(matches!(selection(&action, vec![]), Selection::Nothing));
    assert!(matches!(selection(&action, single(100)), Selection::Nothing));
    assert!(matches!(selection(&action, single(-1)), Selection::Nothing));
    assert!(matches!(selection(&action, single(101)), Selection::Rewrite { .. }));
    let two = vec![manifest("a", 1, Some(1), None), manifest("b", 1, Some(1), None)];
    assert!(matches!(selection(&action, two), Selection::Rewrite { .. }));
}

#[test]
fn entry_size_is_the_average() {
    let action = RewriteManifestsAction::new().set_target_size_bytes(10);
    let two = |a: ManifestFile, b: ManifestFile| vec![a, b];
    let size = |manifests| selected(&action, manifests).1;
    assert_eq!(
        size(two(manifest("a", 100, Some(1), Some(2)), manifest("b", 50, Some(0), Some(1)))),
        37
    );
    assert_eq!(
        size(two(manifest("a", 1, Some(5), None), manifest("b", -9, None, Some(5)))),
        1
    );
    assert_eq!(
        size(two(manifest("a", 100, None, None), manifest("b", 100, None, Some(0)))),
        FALLBACK_BYTES_PER_ENTRY
    );
    assert_eq!(FALLBACK_BYTES_PER_ENTRY, 256);
}

#[test]
fn target_size_comes_from_action_then_property_then_default() {
    let manifests = || vec![manifest("a", 1, Some(1), None), manifest("b", 1, Some(1), None)];
    let target = |action: RewriteManifestsAction, property: Option<&str>| {
        let mut table = table(FormatVersion::V2);
        if let Some(text) = property {
            table
                .properties
                .insert("commit.manifest.target-size-bytes".to_string(), text.to_string());
        }
        match action.select(&table, manifests()) {
            Ok(Selection::Rewrite { process, .. }) => process.target_size_bytes,
            _ => panic!("expected a rewrite"),
        }
    };
    let own = || RewriteManifestsAction::new().set_target_size_bytes(7);
    assert_eq!(target(own(), Some("400")), 7);
    assert_eq!(target(RewriteManifestsAction::new(), Some("400")), 400);
    assert_eq!(target(RewriteManifestsAction::new(), Some("+400")), 400);
    assert_eq!(target(RewriteManifestsAction::new(), Some("four")), 8_388_608);
    assert_eq!(target(RewriteManifestsAction::new(), Some("-1")), 8_388_608);
    assert_eq!(target(RewriteManifestsAction::new(), None), 8_388_608);
}

#[test]
fn sums_that_do_not_fit_are_found() {
    let large = |path: &str| manifest(path, i64::MAX, Some(1), None);
    assert!(check_sums(&vec![large("a"), large("b")], 0));
    assert!(!check_sums(&vec![large("a"), large("b"), large("c")], 0));
    // Manifests that are kept do not count.
    assert!(check_sums(&vec![large("a"), large("b"), large("c")], 1));
}

#[test]
fn decision_sets_a_producer_up() {
    let table = table(FormatVersion::V3);
    let mut properties = Properties::new();
    properties.insert("trigger".to_string(), "manual".to_string());
    let action = RewriteManifestsAction::new().set_snapshot_properties(properties);
    let manifests = vec![manifest("a", 1, Some(1), None), manifest("b", 1, Some(1), None)];
    let Ok(RewriteDecision::Rewrite { producer, .. }) = action.decide(&table, manifests) else {
        panic!("expected a rewrite")
    };
    let id = uuid::Uuid::from_u128(producer.commit_uuid);
    assert_eq!(id.get_version_num(), 7);
    assert_eq!(id.get_variant(), uuid::Variant::RFC4122);
    assert_eq!(producer.snapshot_properties.get("trigger").unwrap(), "manual");
    assert_eq!(producer.key_metadata, None);
    assert!(producer.added_data_files.is_empty());
    assert_eq!(producer.manifest_counter, 0);
    assert!(producer.snapshot_id >= 0 && producer.snapshot_id != 5);
}

fn process(target_size_bytes: u64, bytes_per_entry: u64) -> RewriteManifestsProcess {
    RewriteManifestsProcess {
        to_rewrite: vec![manifest("a", 1, None, None), manifest("b", 1, None, None)],
        target_size_bytes,
        bytes_per_entry,
    }
}

fn producer(table: &TableMetadata) -> SnapshotProducer<'_> {
    SnapshotProducer::new(table, 0xabc, None, Properties::new(), vec![])
}

#[test]
fn processing_reports_missing_ids() {
    let good = entry(ManifestStatus::Added, file("a", 1, 1, None));
    let no_snapshot = ManifestEntry { snapshot_id: None, ..good.clone() };
    let no_sequence = ManifestEntry { sequence_number: None, ..good };
    let error = |e: ManifestEntry| {
        process(100, 1)
            .process_manifests(FormatVersion::V2, vec![loaded(None, vec![e])])
            .unwrap_err()
    };
    let first = error(no_snapshot);
    assert_eq!(first.kind, ErrorKind::DataInvalid);
    assert_eq!(first.message, "Live manifest entry is missing snapshot_id");
    let second = error(no_sequence);
    assert_eq!(second.kind, ErrorKind::DataInvalid);
    assert_eq!(second.message, "Live manifest entry is missing sequence_number");
}

/// Runs a rewrite whose writer hands out manifests with the given row id.
fn run(
    version: FormatVersion,
    written_row_id: Option<u64>,
    manifests: Vec<LoadedManifest>,
) -> (Vec<Vec<String>>, Vec<ManifestFile>, Properties) {
    let table = table(version);
    let mut producer = producer(&table);
    let mut rewrite = process(200, 100).process_manifests(version, manifests).unwrap();
    let mut contents = Vec::new();
    while let Some(next) = rewrite.next_manifest(&mut producer) {
        contents.push(paths(&next.entries).iter().map(|p| p.to_string()).collect());
        let written = manifest(&next.writer.path, 1, None, None);
        rewrite.manifest_written(ManifestFile { first_row_id: written_row_id, ..written });
    }
    let processed = rewrite.finish(vec![manifest("kept", 1, None, None)]);
    (contents, processed.manifests, processed.summary_properties)
}

fn two_partitions() -> Vec<LoadedManifest> {
    vec![
        loaded(
            Some(100),
            vec![
                entry(ManifestStatus::Added, file("a", 1, 10, None)),
                entry(ManifestStatus::Added, file("b", 2, 10, None)),
                entry(ManifestStatus::Added, file("c", 1, 10, None)),
            ],
        ),
        loaded(None, vec![entry(ManifestStatus::Existing, file("d", 1, 10, None))]),
    ]
}

#[test]
fn rewrite_hands_manifests_out_one_by_one() {
    let (contents, manifests, properties) = run(FormatVersion::V3, Some(9), two_partitions());
    assert_eq!(contents, vec![vec!["a", "c"], vec!["d"], vec!["b"]]);
    let found: Vec<(&str, Option<u64>)> =
        manifests.iter().map(|m| (m.manifest_path.as_str(), m.first_row_id)).collect();
    let name = |n: u32| format!("loc/metadata/00000000-0000-0000-0000-000000000abc-m{n}.avro");
    assert_eq!(
        found,
        vec![
            (name(0).as_str(), Some(100)),
            // What the writer said is overwritten, even by nothing.
            (name(1).as_str(), None),
            (name(2).as_str(), Some(110)),
            ("kept", None),
        ]
    );
    let value = |key: &str| properties.get(key).unwrap().as_str();
    assert_eq!(value("manifests-created"), "3");
    assert_eq!(value("manifests-replaced"), "2");
    assert_eq!(value("manifests-kept"), "1");
    assert_eq!(value("entries-processed"), "4");
    assert_eq!(properties.len(), 4);
}

#[test]
fn row_ids_are_left_alone_before_the_third_version() {
    for version in [FormatVersion::V1, FormatVersion::V2] {
        let (_, manifests, _) = run(version, Some(9), two_partitions());
        let ids: Vec<Option<u64>> = manifests.iter().map(|m| m.first_row_id).collect();
        assert_eq!(ids, vec![Some(9), Some(9), Some(9), None]);
    }
}

#[test]
fn load_order_does_not_change_what_is_listed() {
    let sorted = |manifests: Vec<LoadedManifest>| {
        let mut all: Vec<String> =
            run(FormatVersion::V3, None, manifests).0.into_iter().flatten().collect();
        all.sort();
        all
    };
    let mut reversed = two_partitions();
    reversed.reverse();
    assert_eq!(sorted(two_partitions()), sorted(reversed));
}

#[test]
fn rewritten_entries_read_back() {
    let lifted = lift_live_entries(two_partitions());
    let relisted: Vec<ManifestEntry> = lifted[..3]
        .iter()
        .map(|e| ManifestEntry {
            status: ManifestStatus::Existing,
            snapshot_id: Some(e.snapshot_id),
            sequence_number: Some(e.sequence_number),
            file_sequence_number: e.file_sequence_number,
            data_file: e.data_file.clone(),
        })
        .collect();
    assert_eq!(lift_live_entries(vec![loaded(Some(55), relisted)]), lifted[..3]);
}

#[test]
fn an_entry_without_row_id_inherits_the_row_id_of_a_mixed_manifest() {
    let manifests = vec![
        loaded(Some(100), vec![entry(ManifestStatus::Added, file("a", 1, 10, None))]),
        loaded(None, vec![entry(ManifestStatus::Existing, file("d", 1, 10, None))]),
    ];
    let (contents, written, _) = run(FormatVersion::V3, None, manifests.clone());
    assert_eq!(contents, vec![vec!["a", "d"]]);
    assert_eq!(written[0].first_row_id, Some(100));
    let lifted = lift_live_entries(manifests);
    assert_eq!(row_ids(&lifted), vec![Some(100), None]);
    let relisted: Vec<ManifestEntry> =
        lifted.into_iter().map(|e| entry(ManifestStatus::Existing, e.data_file)).collect();
    let again = lift_live_entries(vec![loaded(written[0].first_row_id, relisted)]);
    assert_eq!(row_ids(&again), vec![Some(100), Some(100)]);
}

#[test]
fn kept_manifests_are_handed_on_as_they_are() {
    let operation = RewriteManifestsOperation {
        kept: vec![manifest("x", 1, Some(1), None), manifest("y", 2, None, Some(3))],
    };
    assert_eq!(operation.existing_manifest(), operation.kept);
}
