//! Snapshot production, and the values that it is made of.

use iceberg_transaction::commit::CommitFinishing;
use iceberg_transaction::error::{Error, ErrorKind};
use iceberg_transaction::identity::{accept_draw, fold_uuid_halves, generate_unique_snapshot_id};
use iceberg_transaction::manifest::{
    DataContentType, DataFile, FormatVersion, ManifestContentType, ManifestEntry, ManifestFile,
    ManifestStatus,
};
use iceberg_transaction::partition::{
    find_partition_fault, validate_partition_value, Literal, PartitionFault, PrimitiveLiteral,
    PrimitiveType, Struct, StructType, Type,
};
use iceberg_transaction::properties::Properties;
use iceberg_transaction::snapshot::{
    keep_manifests, AddedFileFault, ManifestListVersion, ManifestWriterVersion,
    ProcessedManifests, SnapshotProducer,
};
use iceberg_transaction::table::{
    ActionCommit, Operation, Snapshot, SnapshotRetention, Summary, TableMetadata,
    TableRequirement, TableUpdate,
};
use iceberg_transaction::text::{decimal_text, join, parse_u64, signed_decimal_text};

const COMMIT: u128 = 0x01890a5d_ac96_774b_bcce_b302099a8057;

fn long(value: i64) -> Option<Literal> {
    Some(Literal::Primitive(PrimitiveLiteral::Long(value)))
}

fn file(path: &str) -> DataFile {
    DataFile {
        content: DataContentType::Data,
        file_path: path.to_string(),
        partition: Struct { fields: vec![long(1)] },
        partition_spec_id: 3,
        record_count: 10,
        file_size_in_bytes: 100,
        first_row_id: None,
        details: vec![],
    }
}

fn table(format_version: FormatVersion) -> TableMetadata {
    TableMetadata {
        uuid: 77,
        format_version,
        location: "s3://bucket/table".to_string(),
        properties: Properties::new(),
        current_snapshot: None,
        snapshot_ids: vec![],
        current_schema_id: 4,
        default_partition_spec_id: 3,
        default_partition_type: StructType { fields: vec![Type::Primitive(PrimitiveType::Long)] },
        next_sequence_number: 9,
        next_row_id: 50,
    }
}

fn with_snapshot(mut table: TableMetadata) -> TableMetadata {
    let mut properties = Properties::new();
    properties.insert("total-records".to_string(), "5".to_string());
    table.current_snapshot = Some(Snapshot {
        snapshot_id: 42,
        parent_snapshot_id: None,
        sequence_number: 8,
        timestamp_ms: 1,
        manifest_list: "s3://bucket/table/metadata/snap-42.avro".to_string(),
        summary: Summary { operation: Operation::Append, additional_properties: properties },
        schema_id: Some(4),
        row_range: None,
    });
    table.snapshot_ids = vec![41, 42];
    table
}

fn producer(table: &TableMetadata, files: Vec<DataFile>) -> SnapshotProducer<'_> {
    SnapshotProducer::new(table, COMMIT, Some(vec![1, 2]), Properties::new(), files)
}

fn manifest(path: &str) -> ManifestFile {
    ManifestFile {
        manifest_path: path.to_string(),
        manifest_length: 1,
        partition_spec_id: 3,
        content: ManifestContentType::Data,
        sequence_number: 1,
        min_sequence_number: 1,
        added_snapshot_id: 1,
        added_files_count: None,
        existing_files_count: None,
        deleted_files_count: None,
        added_rows_count: None,
        existing_rows_count: None,
        deleted_rows_count: None,
        first_row_id: None,
        details: vec![],
    }
}

#[test]
fn numbers_are_written_in_decimal() {
    assert_eq!(decimal_text(0), "0");
    assert_eq!(decimal_text(907), "907");
    assert_eq!(decimal_text(u64::MAX), "18446744073709551615");
    assert_eq!(signed_decimal_text(0), "0");
    assert_eq!(signed_decimal_text(-10), "-10");
    assert_eq!(signed_decimal_text(i64::MIN), "-9223372036854775808");
    assert_eq!(signed_decimal_text(i64::MAX), "9223372036854775807");
}

#[test]
fn decimals_read_back() {
    for n in [0, 1, 9, 10, 99, 100, 12345, u64::MAX] {
        assert_eq!(parse_u64(&decimal_text(n)), Some(n));
    }
}

#[test]
fn numbers_are_read_as_the_standard_library_reads_them() {
    for text in [
        "0", "7", "007", "+7", "18446744073709551615", "18446744073709551616", "", "+", "-1", "-0",
        "1 ", " 1", "1_000", "++1", "1e3", "\u{663}", "99999999999999999999999999",
        "00000000000000000000000000000000000001",
    ] {
        assert_eq!(parse_u64(text), text.parse::<u64>().ok(), "{text:?}");
    }
}

#[test]
fn texts_are_joined() {
    let texts = |parts: &[&str]| parts.iter().map(|p| p.to_string()).collect::<Vec<String>>();
    assert_eq!(join(&texts(&[]), ", "), "");
    assert_eq!(join(&texts(&["a"]), ", "), "a");
    assert_eq!(join(&texts(&["a", "b", "c"]), ", "), "a, b, c");
}

#[test]
fn properties_hold_one_value_per_key() {
    let mut properties = Properties::new();
    assert_eq!(properties.get("a"), None);
    properties.insert("a".to_string(), "1".to_string());
    properties.insert("b".to_string(), "2".to_string());
    properties.insert("a".to_string(), "3".to_string());
    assert_eq!(properties.len(), 2);
    assert_eq!(properties.get("a").unwrap(), "3");
    assert_eq!(properties.get("b").unwrap(), "2");

    let mut others = Properties::new();
    others.insert("b".to_string(), "4".to_string());
    others.insert("c".to_string(), "5".to_string());
    let copy = properties.clone();
    properties.extend(others);
    let mut pairs = properties.into_pairs();
    pairs.sort();
    let expected: Vec<(String, String)> = [("a", "3"), ("b", "4"), ("c", "5")]
        .iter()
        .map(|(k, v)| (k.to_string(), v.to_string()))
        .collect();
    assert_eq!(pairs, expected);
    assert_eq!(copy.len(), 2);
}

#[test]
fn uuid_halves_fold_into_an_id() {
    assert_eq!(fold_uuid_halves(5, 5), Some(0));
    assert_eq!(fold_uuid_halves(6, 3), Some(5));
    assert_eq!(fold_uuid_halves(u64::MAX, 0), Some(1));
    assert_eq!(fold_uuid_halves(1 << 63, 1), Some(i64::MAX));
    assert_eq!(fold_uuid_halves(1 << 63, 0), None);
}

#[test]
fn a_draw_is_taken_unless_its_id_is_in_use() {
    assert_eq!(accept_draw(&vec![], 6, 3), Some(5));
    assert_eq!(accept_draw(&vec![4, 6], 6, 3), Some(5));
    assert_eq!(accept_draw(&vec![4, 5, 6], 6, 3), None);
    assert_eq!(accept_draw(&vec![], 1 << 63, 0), None);
    assert_eq!(accept_draw(&vec![1], u64::MAX, 0), None);
}

#[test]
fn any_id_that_is_not_negative_can_be_drawn() {
    for id in [0, 5, 0x4000, 0xf000, i64::MAX] {
        let bits = id as u64;
        let rhs = 1 << 63 | (((bits >> 12) & 0xf) ^ 4) << 12;
        let uuid = uuid::Uuid::from_u64_pair(rhs ^ bits, rhs);
        assert_eq!(uuid.get_version_num(), 4);
        assert_eq!(uuid.get_variant(), uuid::Variant::RFC4122);
        let (lhs, rhs) = uuid.as_u64_pair();
        assert_eq!(accept_draw(&vec![], lhs, rhs), Some(id));
    }
}

#[test]
fn snapshot_ids_are_new_and_not_negative() {
    let mut ids: Vec<i64> = Vec::new();
    for _ in 0..100 {
        let id = generate_unique_snapshot_id(&ids);
        assert!(id >= 0);
        assert!(!ids.contains(&id));
        ids.push(id);
    }
    // Random ids rather than the smallest that are free.
    assert!(ids.iter().any(|id| *id > 1_000_000));
}

#[test]
fn partition_values_are_the_same_by_value() {
    let double = |v: f64| Literal::Primitive(PrimitiveLiteral::Double(v.to_bits()));
    let float = |v: f32| Literal::Primitive(PrimitiveLiteral::Float(v.to_bits()));
    let text = |v: &str| Literal::Primitive(PrimitiveLiteral::String(v.to_string()));
    assert!(double(0.0).same(&double(-0.0)));
    assert!(double(f64::NAN).same(&double(-f64::NAN)));
    assert!(!double(1.5).same(&double(-1.5)));
    assert!(!double(f64::INFINITY).same(&double(f64::NAN)));
    assert!(!double(f64::INFINITY).same(&double(f64::NEG_INFINITY)));
    assert!(float(0.0).same(&float(-0.0)));
    assert!(float(f32::NAN).same(&float(-f32::NAN)));
    assert!(!float(1.0).same(&double(1.0)));
    assert!(text("a").same(&text("a")));
    assert!(!text("a").same(&text("b")));
    let binary = |v: &[u8]| Literal::Primitive(PrimitiveLiteral::Binary(v.to_vec()));
    assert!(binary(&[1, 2]).same(&binary(&[1, 2])));
    assert!(!binary(&[1, 2]).same(&binary(&[1])));
    assert!(!binary(&[1, 2]).same(&Literal::Nested(vec![1, 2])));
    let tuple = |fields: Vec<Option<Literal>>| Struct { fields };
    assert!(tuple(vec![None, long(1)]).same(&tuple(vec![None, long(1)])));
    assert!(!tuple(vec![None]).same(&tuple(vec![long(0)])));
    assert!(!tuple(vec![]).same(&tuple(vec![None])));
}

#[test]
fn partition_values_are_held_to_their_type() {
    let ty = StructType {
        fields: vec![
            Type::Primitive(PrimitiveType::Date),
            Type::Primitive(PrimitiveType::Timestamptz),
        ],
    };
    let value = |fields: Vec<Option<Literal>>| Struct { fields };
    let int = |v: i32| Some(Literal::Primitive(PrimitiveLiteral::Int(v)));
    let error = |v: Struct, ty: &StructType| validate_partition_value(&v, ty).unwrap_err();

    assert_eq!(validate_partition_value(&value(vec![int(1), long(2)]), &ty), Ok(()));
    assert_eq!(validate_partition_value(&value(vec![None, None]), &ty), Ok(()));

    let length = error(value(vec![int(1)]), &ty);
    assert_eq!(length.kind, ErrorKind::DataInvalid);
    assert_eq!(length.message, "Partition value is not compatible with partition type");

    let wrong = error(value(vec![int(1), int(2)]), &ty);
    assert_eq!(wrong.kind, ErrorKind::DataInvalid);
    assert_eq!(wrong.message, "Partition value is not compatible partition type");

    let nested_type = StructType { fields: vec![Type::Nested] };
    let not_primitive = error(value(vec![None]), &nested_type);
    assert_eq!(not_primitive.kind, ErrorKind::Unexpected);
    assert_eq!(not_primitive.message, "Partition field should only be primitive type.");

    let nested = value(vec![Some(Literal::Nested(vec![])), None]);
    assert_eq!(find_partition_fault(&nested, &ty), Some(PartitionFault::NestedValue));
    // The first fault is the one that is found.
    let both = value(vec![long(1), Some(Literal::Nested(vec![]))]);
    assert_eq!(find_partition_fault(&both, &ty), Some(PartitionFault::WrongValue));
}

#[test]
fn added_files_are_checked_in_order() {
    let table = table(FormatVersion::V2);
    let deletes = DataFile { content: DataContentType::PositionDeletes, ..file("d") };
    let other_spec = DataFile { partition_spec_id: 0, ..file("s") };
    let bad_value = DataFile {
        partition: Struct { fields: vec![Some(Literal::Primitive(PrimitiveLiteral::Int(1)))] },
        ..file("p")
    };
    let check = |files: Vec<DataFile>| producer(&table, files).validate_added_data_files();
    let invalid = |message: &str| {
        Err(Error { kind: ErrorKind::DataInvalid, message: message.to_string() })
    };

    assert_eq!(check(vec![]), Ok(()));
    assert_eq!(check(vec![file("a"), file("b")]), Ok(()));
    let not_data = invalid("Only data content type is allowed for fast append");
    let wrong_spec =
        invalid("Data file partition spec id does not match table default partition spec id");
    assert_eq!(check(vec![file("a"), deletes.clone(), other_spec.clone()]), not_data);
    assert_eq!(check(vec![file("a"), other_spec.clone(), deletes.clone()]), wrong_spec);
    assert_eq!(
        check(vec![bad_value.clone()]),
        invalid("Partition value is not compatible partition type")
    );

    let fault = |files: Vec<DataFile>| producer(&table, files).find_file_fault();
    assert_eq!(fault(vec![file("a")]), None);
    assert_eq!(fault(vec![deletes]), Some(AddedFileFault::NotData));
    assert_eq!(fault(vec![other_spec]), Some(AddedFileFault::WrongSpec));
    assert_eq!(
        fault(vec![bad_value]),
        Some(AddedFileFault::Partition(PartitionFault::WrongValue))
    );
}

#[test]
fn files_of_the_table_cannot_be_added_again() {
    let entry = |status: ManifestStatus, path: &str| ManifestEntry {
        status,
        snapshot_id: Some(1),
        sequence_number: Some(1),
        file_sequence_number: Some(1),
        data_file: file(path),
    };
    let listed = vec![
        vec![
            entry(ManifestStatus::Existing, "b"),
            entry(ManifestStatus::Deleted, "c"),
            entry(ManifestStatus::Added, "x"),
        ],
        vec![],
        vec![entry(ManifestStatus::Added, "a")],
    ];
    let table = with_snapshot(table(FormatVersion::V2));
    let check = |paths: &[&str]| {
        let files = paths.iter().map(|p| file(p)).collect();
        producer(&table, files).validate_duplicate_files(&listed)
    };
    assert_eq!(check(&[]), Ok(()));
    assert_eq!(check(&["c", "d"]), Ok(()));
    let error = check(&["a", "b", "c", "d"]).unwrap_err();
    assert_eq!(error.kind, ErrorKind::DataInvalid);
    assert_eq!(
        error.message,
        "Cannot add files that are already referenced by table, files: b, a"
    );
    assert_eq!(
        producer(&table, vec![]).manifest_list_to_check().unwrap(),
        "s3://bucket/table/metadata/snap-42.avro"
    );
}

#[test]
fn a_table_without_snapshot_references_nothing() {
    let table = table(FormatVersion::V2);
    let entry = ManifestEntry {
        status: ManifestStatus::Added,
        snapshot_id: None,
        sequence_number: None,
        file_sequence_number: None,
        data_file: file("a"),
    };
    let producer = producer(&table, vec![file("a")]);
    assert_eq!(producer.manifest_list_to_check(), None);
    assert_eq!(producer.validate_duplicate_files(&vec![vec![entry]]), Ok(()));
}

#[test]
fn manifests_are_named_one_after_the_other() {
    let table = table(FormatVersion::V2);
    let mut producer = producer(&table, vec![]);
    let first = producer.new_manifest_writer(ManifestContentType::Data);
    let second = producer.new_manifest_writer(ManifestContentType::Deletes);
    assert_eq!(
        first.path,
        "s3://bucket/table/metadata/01890a5d-ac96-774b-bcce-b302099a8057-m0.avro"
    );
    assert_eq!(
        second.path,
        "s3://bucket/table/metadata/01890a5d-ac96-774b-bcce-b302099a8057-m1.avro"
    );
    assert_eq!(first.snapshot_id, Some(producer.snapshot_id));
    assert_eq!(first.key_metadata, Some(vec![1, 2]));
    assert_eq!(first.schema_id, 4);
    assert_eq!(first.partition_spec_id, 3);
    assert_eq!(first.version, ManifestWriterVersion::V2Data);
    assert_eq!(second.version, ManifestWriterVersion::V2Deletes);
    assert_eq!(producer.manifest_counter, 2);

    producer.manifest_counter = u64::MAX;
    let last = producer.new_manifest_writer(ManifestContentType::Data);
    assert!(last.path.ends_with("-m18446744073709551615.avro"));
    assert_eq!(producer.manifest_counter, 0);
}

#[test]
fn writers_go_by_version_and_content() {
    let version = |format_version, content| {
        producer(&table(format_version), vec![]).new_manifest_writer(content).version
    };
    assert_eq!(version(FormatVersion::V1, ManifestContentType::Data), ManifestWriterVersion::V1);
    assert_eq!(version(FormatVersion::V1, ManifestContentType::Deletes), ManifestWriterVersion::V1);
    assert_eq!(version(FormatVersion::V3, ManifestContentType::Data), ManifestWriterVersion::V3Data);
    assert_eq!(version(FormatVersion::V3, ManifestContentType::Deletes), ManifestWriterVersion::V3Deletes);
}

#[test]
fn manifest_lists_go_by_version() {
    let config = |table: &TableMetadata| {
        let producer = SnapshotProducer { snapshot_id: 6, ..producer(table, vec![]) };
        producer.manifest_list_writer()
    };
    let v1 = config(&table(FormatVersion::V1));
    assert_eq!(
        v1.path,
        "s3://bucket/table/metadata/snap-6-0-01890a5d-ac96-774b-bcce-b302099a8057.avro"
    );
    assert_eq!(v1.snapshot_id, 6);
    assert_eq!(v1.parent_snapshot_id, None);
    assert_eq!(v1.version, ManifestListVersion::V1);
    let v2 = config(&with_snapshot(table(FormatVersion::V2)));
    assert_eq!(v2.parent_snapshot_id, Some(42));
    assert_eq!(v2.version, ManifestListVersion::V2 { sequence_number: 9 });
    let v3 = config(&table(FormatVersion::V3));
    assert_eq!(
        v3.version,
        ManifestListVersion::V3 { sequence_number: 9, first_row_id: Some(50) }
    );
    let table = table(FormatVersion::V1);
    let producer = SnapshotProducer { snapshot_id: 6, ..producer(&table, vec![]) };
    assert_eq!(
        producer.generate_manifest_list_file_path(-2),
        "s3://bucket/table/metadata/snap-6--2-01890a5d-ac96-774b-bcce-b302099a8057.avro"
    );
}

#[test]
fn added_files_become_added_entries() {
    for version in [FormatVersion::V1, FormatVersion::V2, FormatVersion::V3] {
        let table = table(version);
        let mut producer = producer(&table, vec![file("a"), file("b")]);
        let added = producer.take_added_manifest().unwrap();
        let expected_id =
            if version == FormatVersion::V1 { Some(producer.snapshot_id) } else { None };
        let expected: Vec<ManifestEntry> = ["a", "b"]
            .iter()
            .map(|path| ManifestEntry {
                status: ManifestStatus::Added,
                snapshot_id: expected_id,
                sequence_number: None,
                file_sequence_number: None,
                data_file: file(path),
            })
            .collect();
        assert_eq!(added.entries, expected);
        assert!(added.writer.path.ends_with("-m0.avro"));
        assert!(producer.added_data_files.is_empty());

        let error = producer.take_added_manifest().unwrap_err();
        assert_eq!(error.kind, ErrorKind::PreconditionFailed);
        assert_eq!(
            error.message,
            "No added data files found when write an added manifest file"
        );
    }
}

#[test]
fn added_entries_do_not_depend_on_the_snapshot_of_a_retry() {
    let table = table(FormatVersion::V2);
    let entries = |snapshot_id: i64| {
        let mut producer = SnapshotProducer { snapshot_id, ..producer(&table, vec![file("a")]) };
        producer.take_added_manifest().unwrap().entries
    };
    assert_eq!(entries(1), entries(2));
}

#[test]
fn summary_limit_comes_from_the_table() {
    let mut table = table(FormatVersion::V2);
    assert_eq!(producer(&table, vec![]).added_files_metrics().partition_summary_limit, 0);
    table.properties.insert("write.summary.partition-limit".to_string(), "12".to_string());
    let metrics = producer(&table, vec![]).added_files_metrics();
    assert_eq!(metrics.partition_summary_limit, 12);
    assert_eq!(metrics.schema_id, 4);
    assert_eq!(metrics.partition_spec_id, 3);
    table.properties.insert("write.summary.partition-limit".to_string(), "many".to_string());
    assert_eq!(producer(&table, vec![]).added_files_metrics().partition_summary_limit, 0);
}

#[test]
fn computed_properties_take_precedence() {
    let table = with_snapshot(table(FormatVersion::V2));
    let properties = |pairs: &[(&str, &str)]| {
        let mut properties = Properties::new();
        for (key, value) in pairs {
            properties.insert(key.to_string(), value.to_string());
        }
        properties
    };
    let user = properties(&[("a", "user"), ("b", "user"), ("c", "user")]);
    let producer = SnapshotProducer::new(&table, COMMIT, None, user, vec![]);
    let added = properties(&[("b", "added"), ("c", "added"), ("d", "added")]);
    let process = properties(&[("c", "process"), ("e", "process")]);
    let update = producer.summary(Operation::Overwrite, added, process);
    let value = |key: &str| update.summary.additional_properties.get(key).unwrap().as_str();
    assert_eq!(value("a"), "user");
    assert_eq!(value("b"), "added");
    assert_eq!(value("c"), "process");
    assert_eq!(value("d"), "added");
    assert_eq!(value("e"), "process");
    assert_eq!(update.summary.additional_properties.len(), 5);
    assert_eq!(update.summary.operation, Operation::Overwrite);
    assert!(update.truncate_full_table);
    let previous = update.previous.unwrap();
    assert_eq!(previous.additional_properties.get("total-records").unwrap(), "5");

    let update = producer.summary(Operation::Delete, Properties::new(), Properties::new());
    assert!(!update.truncate_full_table);
}

#[test]
fn a_commit_lists_existing_manifests_before_the_added_one() {
    let table = with_snapshot(table(FormatVersion::V2));
    let producer = producer(&table, vec![file("a")]);
    let (list, begun) = producer.begin_commit(Operation::Append);
    assert_eq!(list.path, begun.manifest_list);
    let mut metrics = Properties::new();
    metrics.insert("added-data-files".to_string(), "1".to_string());
    let (added, listed) = begun.list_manifests(metrics, vec![manifest("old")]);
    assert_eq!(added.unwrap().entries.len(), 1);
    assert!(listed.awaits_added);
    let (manifests, processing) = listed.add_manifest(Some(manifest("new")));
    assert_eq!(manifests, vec![manifest("old"), manifest("new")]);
    assert_eq!(processing.producer.manifest_counter, 1);
    let (work, _) = processing.summarize(keep_manifests(manifests));
    assert_eq!(work.manifests, vec![manifest("old"), manifest("new")]);
    let properties = work.summary.summary.additional_properties;
    assert_eq!(properties.get("added-data-files").unwrap(), "1");
    assert_eq!(properties.len(), 1);
}

#[test]
fn a_commit_without_added_files_awaits_no_manifest() {
    let table = table(FormatVersion::V2);
    let (_, begun) = producer(&table, vec![]).begin_commit(Operation::Replace);
    let (added, listed) = begun.list_manifests(Properties::new(), vec![manifest("old")]);
    assert!(added.is_none());
    assert!(!listed.awaits_added);
    let (manifests, processing) = listed.add_manifest(None);
    assert_eq!(manifests, vec![manifest("old")]);
    assert_eq!(processing.producer.manifest_counter, 0);
}

fn summary() -> Summary {
    let mut additional_properties = Properties::new();
    additional_properties.insert("k".to_string(), "v".to_string());
    Summary { operation: Operation::Append, additional_properties }
}

fn finishing(table: &TableMetadata) -> CommitFinishing<'_> {
    let (_, begun) = producer(table, vec![]).begin_commit(Operation::Append);
    let (_, listed) = begun.list_manifests(Properties::new(), vec![]);
    let (manifests, processing) = listed.add_manifest(None);
    processing.summarize(ProcessedManifests::new(manifests)).1
}

fn added_snapshot(commit: &ActionCommit) -> &Snapshot {
    match &commit.updates[0] {
        TableUpdate::AddSnapshot { snapshot } => snapshot,
        _ => panic!("first update should be AddSnapshot"),
    }
}

#[test]
fn a_commit_adds_the_snapshot_and_moves_the_main_branch() {
    let table = with_snapshot(table(FormatVersion::V3));
    let finishing = finishing(&table);
    let id = finishing.producer.snapshot_id;
    let commit = finishing.finish_at(summary(), Some(57), 1234);
    let snapshot = added_snapshot(&commit);
    assert_eq!(snapshot.snapshot_id, id);
    assert_eq!(snapshot.parent_snapshot_id, Some(42));
    assert_eq!(snapshot.sequence_number, 9);
    assert_eq!(snapshot.timestamp_ms, 1234);
    assert_eq!(
        snapshot.manifest_list,
        format!(
            "s3://bucket/table/metadata/snap-{id}-0-01890a5d-ac96-774b-bcce-b302099a8057.avro"
        )
    );
    assert_eq!(snapshot.summary.additional_properties.get("k").unwrap(), "v");
    assert_eq!(snapshot.schema_id, Some(4));
    assert_eq!(snapshot.row_range, Some((50, 7)));
    assert_eq!(commit.updates.len(), 2);
    match &commit.updates[1] {
        TableUpdate::SetSnapshotRef { ref_name, reference } => {
            assert_eq!(ref_name, "main");
            assert_eq!(reference.snapshot_id, id);
            assert_eq!(
                reference.retention,
                SnapshotRetention::Branch {
                    min_snapshots_to_keep: None,
                    max_snapshot_age_ms: None,
                    max_ref_age_ms: None,
                }
            );
        }
        _ => panic!("second update should be SetSnapshotRef"),
    }
    assert_eq!(
        commit.requirements,
        vec![
            TableRequirement::UuidMatch { uuid: 77 },
            TableRequirement::RefSnapshotIdMatch {
                ref_name: "main".to_string(),
                snapshot_id: Some(42),
            },
        ]
    );
}

#[test]
fn a_first_commit_has_no_parent_and_may_have_no_rows() {
    let table = table(FormatVersion::V2);
    let commit = finishing(&table).finish_at(summary(), None, 0);
    assert_eq!(added_snapshot(&commit).parent_snapshot_id, None);
    assert_eq!(added_snapshot(&commit).row_range, None);
    let commit = finishing(&table).finish_at(summary(), Some(50), 0);
    assert_eq!(added_snapshot(&commit).row_range, Some((50, 0)));
}

#[test]
fn a_commit_is_stamped_with_the_time() {
    let table = table(FormatVersion::V2);
    let before = chrono::Utc::now().timestamp_millis();
    let commit = finishing(&table).finish(summary(), None);
    let after = chrono::Utc::now().timestamp_millis();
    let stamped = added_snapshot(&commit).timestamp_ms;
    assert!(before <= stamped && stamped <= after);
}
