//! Rewriting of manifests: many small ones merged, oversized ones split, and
//! entries clustered by partition.

use vstd::prelude::*;

use crate::error::{Error, ErrorKind};
use crate::grouping::{group_by_partition, group_views, grouped};
use crate::identity::{is_fresh_id, time_ordered_uuid, uuid_variant, uuid_version};
use crate::lineage::{
    all_live_entries, find_defect, first_defect, lift_live_entries, Defect, ExistingEntry,
    LoadedManifest,
};
use crate::manifest::{
    manifest_views, may_have, FormatVersion, ManifestContentType, ManifestEntry, ManifestFile,
    ManifestFileView,
};
use crate::properties::Properties;
use crate::rolling::{
    manifest_capacity, planned_entries, roll_group, rolled_groups, row_ids_planned, PlannedManifest,
};
use crate::snapshot::{ManifestWriterConfig, ProcessedManifests, SnapshotProducer};
use crate::table::{
    number_property, ActionCommit, Operation, TableMetadata,
    PROPERTY_COMMIT_MANIFEST_TARGET_SIZE_BYTES, PROPERTY_COMMIT_MANIFEST_TARGET_SIZE_BYTES_DEFAULT,
};
use crate::text::{decimal, decimal_text};

verus! {

/// The size that an entry is taken to have where the manifests do not say how
/// many entries they hold.
pub const FALLBACK_BYTES_PER_ENTRY: u64 = 256;

/// The summary property with the number of manifests that were written.
pub const MANIFESTS_CREATED: &'static str = "manifests-created";

/// The summary property with the number of manifests that were rewritten.
pub const MANIFESTS_REPLACED: &'static str = "manifests-replaced";

/// The summary property with the number of manifests that were left as they were.
pub const MANIFESTS_KEPT: &'static str = "manifests-kept";

/// The summary property with the number of entries that were rewritten.
pub const ENTRIES_PROCESSED: &'static str = "entries-processed";

/// Whether a manifest is one to rewrite: a data manifest of the table's default
/// partition spec that may hold live entries.
pub open spec fn is_rewritable(manifest: ManifestFile, default_spec_id: i32) -> bool {
    &&& manifest.content == ManifestContentType::Data
    &&& manifest.partition_spec_id == default_spec_id
    &&& may_have(manifest.added_files_count) || may_have(manifest.existing_files_count)
}

/// The manifests to rewrite, in order.
pub open spec fn to_rewrite(manifests: Seq<ManifestFile>, default_spec_id: i32) -> Seq<
    ManifestFile,
> {
    manifests.filter(|m: ManifestFile| is_rewritable(m, default_spec_id))
}

/// The manifests to leave as they are, in order.
pub open spec fn to_keep(manifests: Seq<ManifestFile>, default_spec_id: i32) -> Seq<ManifestFile> {
    manifests.filter(|m: ManifestFile| !is_rewritable(m, default_spec_id))
}

/// The size of the manifests together. A negative length counts as none.
pub open spec fn total_size(manifests: Seq<ManifestFile>) -> nat
    decreases manifests.len(),
{
    if manifests.len() == 0 {
        0
    } else {
        total_size(manifests.drop_last()) + if manifests.last().manifest_length < 0 {
            0
        } else {
            manifests.last().manifest_length as nat
        }
    }
}

/// The number of live entries that the manifests say they hold. An unknown count
/// counts as none.
pub open spec fn total_entries(manifests: Seq<ManifestFile>) -> nat
    decreases manifests.len(),
{
    if manifests.len() == 0 {
        0
    } else {
        total_entries(manifests.drop_last()) + count_or_none(manifests.last().added_files_count)
            + count_or_none(manifests.last().existing_files_count)
    }
}

/// A count of files, or none if it is unknown.
pub open spec fn count_or_none(count: Option<u32>) -> nat {
    match count {
        Some(n) => n as nat,
        None => 0,
    }
}

/// The size that an entry is taken to have: the average, and at least one byte.
pub open spec fn average_entry_size(manifests: Seq<ManifestFile>) -> nat {
    if total_entries(manifests) == 0 {
        FALLBACK_BYTES_PER_ENTRY as nat
    } else if total_size(manifests) < total_entries(manifests) {
        1
    } else {
        total_size(manifests) / total_entries(manifests)
    }
}

/// Whether there is nothing to do: no manifest to rewrite, or a single one that
/// fits the target.
pub open spec fn nothing_to_do(selected: Seq<ManifestFile>, target_size_bytes: u64) -> bool {
    selected.len() == 0 || (selected.len() == 1 && total_size(selected) <= target_size_bytes)
}

/// Whether the sizes and the counts of the manifests to rewrite add up to 64-bit
/// integers.
pub open spec fn sums_fit(manifests: Seq<ManifestFile>, default_spec_id: i32) -> bool {
    &&& total_size(to_rewrite(manifests, default_spec_id)) <= u64::MAX
    &&& total_entries(to_rewrite(manifests, default_spec_id)) <= u64::MAX
}

/// An action that rewrites the manifests of a table.
#[derive(Debug)]
pub struct RewriteManifestsAction {
    pub target_size_bytes: Option<u64>,
    pub snapshot_properties: Properties,
}

/// What an action has to do.
#[derive(Debug)]
pub enum Selection {
    /// Nothing.
    Nothing,
    /// Some of the manifests are to be rewritten, and the others kept.
    Rewrite { operation: RewriteManifestsOperation, process: RewriteManifestsProcess },
}

/// What an action comes to.
#[derive(Debug)]
pub enum RewriteDecision<'a> {
    /// There is nothing to do, and nothing to commit.
    Done(ActionCommit),
    /// A snapshot is to be produced.
    Rewrite {
        producer: SnapshotProducer<'a>,
        operation: RewriteManifestsOperation,
        process: RewriteManifestsProcess,
    },
}

/// The part of a rewrite that carries the untouched manifests forward.
#[derive(Debug)]
pub struct RewriteManifestsOperation {
    pub kept: Vec<ManifestFile>,
}

/// The part of a rewrite that replaces the selected manifests.
#[derive(Debug)]
pub struct RewriteManifestsProcess {
    pub to_rewrite: Vec<ManifestFile>,
    pub target_size_bytes: u64,
    pub bytes_per_entry: u64,
}

impl RewriteManifestsAction {
    /// The size that the action rewrites manifests to: what was asked for, or
    /// else the table's property, or else the default.
    pub open spec fn target_size(self, properties: Map<Seq<char>, Seq<char>>) -> u64 {
        match self.target_size_bytes {
            Some(size) => size,
            None => number_property(
                properties,
                PROPERTY_COMMIT_MANIFEST_TARGET_SIZE_BYTES@,
                PROPERTY_COMMIT_MANIFEST_TARGET_SIZE_BYTES_DEFAULT,
            ),
        }
    }

    /// An action with nothing set.
    pub fn new() -> (r: RewriteManifestsAction)
        ensures
            r.target_size_bytes is None,
            r.snapshot_properties@ == Map::<Seq<char>, Seq<char>>::empty(),
    {
        RewriteManifestsAction { target_size_bytes: None, snapshot_properties: Properties::new() }
    }

    /// Sets the size that manifests are rewritten to.
    pub fn set_target_size_bytes(self, target_size_bytes: u64) -> (r: RewriteManifestsAction)
        ensures
            r == (RewriteManifestsAction { target_size_bytes: Some(target_size_bytes), ..self }),
    {
        let mut action = self;
        action.target_size_bytes = Some(target_size_bytes);
        action
    }

    /// Sets what the summary of the new snapshot is to say besides.
    pub fn set_snapshot_properties(self, snapshot_properties: Properties) -> (r:
        RewriteManifestsAction)
        ensures
            r == (RewriteManifestsAction { snapshot_properties, ..self }),
    {
        let mut action = self;
        action.snapshot_properties = snapshot_properties;
        action
    }

    /// The manifest list whose manifests are to be rewritten.
    pub fn manifest_list_to_rewrite<'a>(&self, table: &'a TableMetadata) -> (r: Result<
        &'a String,
        Error,
    >)
        ensures
            match table.current_snapshot {
                Some(snapshot) => r matches Ok(path) && path@ == snapshot.manifest_list@,
                None => r matches Err(error) && error.says(
                    ErrorKind::PreconditionFailed,
                    "RewriteManifests requires the table to have a current snapshot"@,
                ),
            },
    {
        match &table.current_snapshot {
            Some(snapshot) => Ok(&snapshot.manifest_list),
            None => Err(
                Error::new(
                    ErrorKind::PreconditionFailed,
                    "RewriteManifests requires the table to have a current snapshot",
                ),
            ),
        }
    }

    /// Tells apart the manifests to rewrite and those to keep, and decides whether
    /// there is anything to do.
    pub fn select(&self, table: &TableMetadata, manifests: Vec<ManifestFile>) -> (r: Result<
        Selection,
        Error,
    >)
        requires
            sums_fit(manifests@, table.default_partition_spec_id),
        ensures
            ({
                let selected = to_rewrite(manifests@, table.default_partition_spec_id);
                let target = self.target_size(table.properties@);
                match r {
                    Err(error) => table.current_snapshot is None && error.says(
                        ErrorKind::PreconditionFailed,
                        "RewriteManifests requires the table to have a current snapshot"@,
                    ),
                    Ok(Selection::Nothing) => table.current_snapshot is Some && nothing_to_do(
                        selected,
                        target,
                    ),
                    Ok(Selection::Rewrite { operation, process }) => {
                        &&& table.current_snapshot is Some
                        &&& !nothing_to_do(selected, target)
                        &&& operation.kept@ == to_keep(manifests@, table.default_partition_spec_id)
                        &&& process.to_rewrite@ == selected
                        &&& process.target_size_bytes == target
                        &&& process.bytes_per_entry == average_entry_size(selected)
                    },
                }
            }),
    {
        match self.manifest_list_to_rewrite(table) {
            Ok(_) => {},
            Err(error) => {
                return Err(error);
            },
        }
        let target_size_bytes: u64 = match self.target_size_bytes {
            Some(size) => size,
            None => table.number_property_or(
                PROPERTY_COMMIT_MANIFEST_TARGET_SIZE_BYTES,
                PROPERTY_COMMIT_MANIFEST_TARGET_SIZE_BYTES_DEFAULT,
            ),
        };
        let (selected, kept) = split(manifests, table.default_partition_spec_id);
        if selected.is_empty() {
            return Ok(Selection::Nothing);
        }
        let size = sum_sizes(&selected);
        if selected.len() == 1 && size <= target_size_bytes {
            return Ok(Selection::Nothing);
        }
        let entries = sum_entries(&selected);
        let bytes_per_entry: u64 = match size.checked_div(entries) {
            Some(average) => if average < 1 {
                1
            } else {
                average
            },
            None => FALLBACK_BYTES_PER_ENTRY,
        };
        proof {
            lemma_average(size as nat, entries as nat);
        }
        Ok(
            Selection::Rewrite {
                operation: RewriteManifestsOperation { kept },
                process: RewriteManifestsProcess {
                    to_rewrite: selected,
                    target_size_bytes,
                    bytes_per_entry,
                },
            },
        )
    }

    /// Decides what the action comes to, and sets up the producer of the new
    /// snapshot under a fresh commit UUID.
    pub fn decide<'a>(&self, table: &'a TableMetadata, manifests: Vec<ManifestFile>) -> (r: Result<
        RewriteDecision<'a>,
        Error,
    >)
        requires
            sums_fit(manifests@, table.default_partition_spec_id),
            table.snapshot_ids@.len() <= i64::MAX,
        ensures
            ({
                let selected = to_rewrite(manifests@, table.default_partition_spec_id);
                let target = self.target_size(table.properties@);
                match r {
                    Err(error) => table.current_snapshot is None && error.says(
                        ErrorKind::PreconditionFailed,
                        "RewriteManifests requires the table to have a current snapshot"@,
                    ),
                    Ok(RewriteDecision::Done(commit)) => {
                        &&& table.current_snapshot is Some
                        &&& nothing_to_do(selected, target)
                        &&& commit.is_empty()
                    },
                    Ok(RewriteDecision::Rewrite { producer, operation, process }) => {
                        &&& table.current_snapshot is Some
                        &&& !nothing_to_do(selected, target)
                        &&& operation.kept@ == to_keep(manifests@, table.default_partition_spec_id)
                        &&& process.to_rewrite@ == selected
                        &&& process.target_size_bytes == target
                        &&& process.bytes_per_entry == average_entry_size(selected)
                        &&& producer.table == table
                        &&& is_fresh_id(table.snapshot_ids@, producer.snapshot_id)
                        &&& uuid_version(producer.commit_uuid) == 7
                        &&& uuid_variant(producer.commit_uuid) == 2
                        &&& producer.key_metadata is None
                        &&& producer.snapshot_properties@ == self.snapshot_properties@
                        &&& producer.added_data_files@.len() == 0
                        &&& producer.manifest_counter == 0
                    },
                }
            }),
    {
        match self.select(table, manifests) {
            Err(error) => Err(error),
            Ok(Selection::Nothing) => Ok(
                RewriteDecision::Done(ActionCommit::new(Vec::new(), Vec::new())),
            ),
            Ok(Selection::Rewrite { operation, process }) => {
                let producer = SnapshotProducer::new(
                    table,
                    time_ordered_uuid(),
                    None,
                    self.snapshot_properties.clone(),
                    Vec::new(),
                );
                Ok(RewriteDecision::Rewrite { producer, operation, process })
            },
        }
    }
}

proof fn lemma_average(size: nat, entries: nat)
    ensures
        entries > 0 && size < entries ==> size / entries == 0,
        entries > 0 && size >= entries ==> size / entries >= 1,
{
    if entries > 0 {
        if size < entries {
            vstd::arithmetic::div_mod::lemma_basic_div(size as int, entries as int);
        } else {
            vstd::arithmetic::div_mod::lemma_div_non_zero(size as int, entries as int);
        }
    }
}

fn rewritable(manifest: &ManifestFile, default_spec_id: i32) -> (r: bool)
    ensures
        r == is_rewritable(*manifest, default_spec_id),
{
    manifest.content == ManifestContentType::Data && manifest.partition_spec_id == default_spec_id
        && (manifest.has_added_files() || manifest.has_existing_files())
}

fn split(manifests: Vec<ManifestFile>, default_spec_id: i32) -> (r: (
    Vec<ManifestFile>,
    Vec<ManifestFile>,
))
    ensures
        r.0@ == to_rewrite(manifests@, default_spec_id),
        r.1@ == to_keep(manifests@, default_spec_id),
{
    let mut selected: Vec<ManifestFile> = Vec::new();
    let mut kept: Vec<ManifestFile> = Vec::new();
    let ghost all = manifests@;
    proof {
        reveal(Seq::filter);
    }
    assert(all.take(0) =~= Seq::empty());
    for manifest in it: manifests
        invariant
            it.seq() == all,
            selected@ == to_rewrite(all.take(it.index()), default_spec_id),
            kept@ == to_keep(all.take(it.index()), default_spec_id),
    {
        let ghost i = it.index();
        assert(all.take(i).push(all[i]) =~= all.take(i + 1));
        proof {
            all.take(i).lemma_filter_push(
                all[i],
                |m: ManifestFile| is_rewritable(m, default_spec_id),
            );
            all.take(i).lemma_filter_push(
                all[i],
                |m: ManifestFile| !is_rewritable(m, default_spec_id),
            );
        }
        if rewritable(&manifest, default_spec_id) {
            selected.push(manifest);
        } else {
            kept.push(manifest);
        }
    }
    assert(all.take(all.len() as int) =~= all);
    (selected, kept)
}

proof fn lemma_sums_grow(manifests: Seq<ManifestFile>, n: int)
    requires
        0 <= n <= manifests.len(),
    ensures
        total_size(manifests.take(n)) <= total_size(manifests),
        total_entries(manifests.take(n)) <= total_entries(manifests),
    decreases manifests.len(),
{
    if n < manifests.len() {
        assert(manifests.drop_last().take(n) =~= manifests.take(n));
        lemma_sums_grow(manifests.drop_last(), n);
    } else {
        assert(manifests.take(n) =~= manifests);
    }
}

fn size_of_manifest(manifest: &ManifestFile) -> (r: u64)
    ensures
        r == if manifest.manifest_length < 0 {
            0
        } else {
            manifest.manifest_length as int
        },
{
    if manifest.manifest_length < 0 {
        0
    } else {
        manifest.manifest_length as u64
    }
}

fn entries_of_manifest(manifest: &ManifestFile) -> (r: u64)
    ensures
        r == count_or_none(manifest.added_files_count) + count_or_none(
            manifest.existing_files_count,
        ),
{
    let added: u32 = manifest.added_files_count.unwrap_or(0);
    let existing: u32 = manifest.existing_files_count.unwrap_or(0);
    added as u64 + existing as u64
}

fn sum_sizes(manifests: &Vec<ManifestFile>) -> (r: u64)
    requires
        total_size(manifests@) <= u64::MAX,
    ensures
        r == total_size(manifests@),
{
    let mut sum: u64 = 0;
    for i in 0..manifests.len()
        invariant
            total_size(manifests@) <= u64::MAX,
            sum == total_size(manifests@.take(i as int)),
    {
        proof {
            lemma_sums_grow(manifests@, i + 1);
            assert(manifests@.take(i + 1).drop_last() =~= manifests@.take(i as int));
        }
        sum = sum + size_of_manifest(&manifests[i]);
    }
    assert(manifests@.take(manifests@.len() as int) =~= manifests@);
    sum
}

fn sum_entries(manifests: &Vec<ManifestFile>) -> (r: u64)
    requires
        total_entries(manifests@) <= u64::MAX,
    ensures
        r == total_entries(manifests@),
{
    let mut sum: u64 = 0;
    for i in 0..manifests.len()
        invariant
            total_entries(manifests@) <= u64::MAX,
            sum == total_entries(manifests@.take(i as int)),
    {
        proof {
            lemma_sums_grow(manifests@, i + 1);
            assert(manifests@.take(i + 1).drop_last() =~= manifests@.take(i as int));
        }
        sum = sum + entries_of_manifest(&manifests[i]);
    }
    assert(manifests@.take(manifests@.len() as int) =~= manifests@);
    sum
}

/// Finds out whether the sizes and the counts of the manifests to rewrite add up
/// to 64-bit integers.
pub fn check_sums(manifests: &Vec<ManifestFile>, default_spec_id: i32) -> (r: bool)
    ensures
        r == sums_fit(manifests@, default_spec_id),
{
    let mut size: u64 = 0;
    let mut entries: u64 = 0;
    let ghost all = manifests@;
    proof {
        reveal(Seq::filter);
    }
    assert(all.take(0) =~= Seq::empty());
    for i in 0..manifests.len()
        invariant
            all == manifests@,
            size == total_size(to_rewrite(all.take(i as int), default_spec_id)),
            entries == total_entries(to_rewrite(all.take(i as int), default_spec_id)),
    {
        let ghost before = to_rewrite(all.take(i as int), default_spec_id);
        let ghost after = to_rewrite(all.take(i + 1), default_spec_id);
        proof {
            assert(all.take(i as int).push(all[i as int]) =~= all.take(i + 1));
            all.take(i as int).lemma_filter_push(
                all[i as int],
                |m: ManifestFile| is_rewritable(m, default_spec_id),
            );
            assert(before.push(all[i as int]).drop_last() =~= before);
            lemma_selected_sums_grow(all, i + 1, default_spec_id);
        }
        let manifest = &manifests[i];
        if rewritable(manifest, default_spec_id) {
            match (
                size.checked_add(size_of_manifest(manifest)),
                entries.checked_add(entries_of_manifest(manifest)),
            ) {
                (Some(more_size), Some(more_entries)) => {
                    size = more_size;
                    entries = more_entries;
                },
                _ => {
                    return false;
                },
            }
        }
    }
    assert(all.take(all.len() as int) =~= all);
    true
}

proof fn lemma_selected_sums_grow(manifests: Seq<ManifestFile>, n: int, default_spec_id: i32)
    requires
        0 <= n <= manifests.len(),
    ensures
        total_size(to_rewrite(manifests.take(n), default_spec_id)) <= total_size(
            to_rewrite(manifests, default_spec_id),
        ),
        total_entries(to_rewrite(manifests.take(n), default_spec_id)) <= total_entries(
            to_rewrite(manifests, default_spec_id),
        ),
    decreases manifests.len(),
{
    if n < manifests.len() {
        let before = manifests.drop_last();
        assert(before.take(n) =~= manifests.take(n));
        lemma_selected_sums_grow(before, n, default_spec_id);
        assert(before.push(manifests.last()) =~= manifests);
        before.lemma_filter_push(
            manifests.last(),
            |m: ManifestFile| is_rewritable(m, default_spec_id),
        );
        let selected = to_rewrite(before, default_spec_id);
        assert(selected.push(manifests.last()).drop_last() =~= selected);
    } else {
        assert(manifests.take(n) =~= manifests);
    }
}

impl RewriteManifestsOperation {
    /// The kind of change: the same rows, otherwise listed.
    pub fn operation(&self) -> (r: Operation)
        ensures
            r == Operation::Replace,
    {
        Operation::Replace
    }

    /// The entries to mark as deleted: none.
    pub fn delete_entries(&self) -> (r: Vec<ManifestEntry>)
        ensures
            r@.len() == 0,
    {
        Vec::new()
    }

    /// The manifests to carry forward.
    pub fn existing_manifest(&self) -> (r: Vec<ManifestFile>)
        ensures
            manifest_views(r@) == manifest_views(self.kept@),
    {
        let mut manifests: Vec<ManifestFile> = Vec::new();
        for i in 0..self.kept.len()
            invariant
                manifest_views(manifests@) == manifest_views(self.kept@.take(i as int)),
        {
            let ghost before = manifests@;
            manifests.push(self.kept[i].clone());
            assert(manifest_views(manifests@) =~= manifest_views(before).push(
                self.kept@[i as int]@,
            ));
            assert(manifest_views(self.kept@.take(i + 1)) =~= manifest_views(
                self.kept@.take(i as int),
            ).push(self.kept@[i as int]@));
        }
        assert(self.kept@.take(self.kept@.len() as int) =~= self.kept@);
        manifests
    }
}

/// Whether the error is the one for this defect.
pub open spec fn reports_defect(error: Error, defect: Defect) -> bool {
    match defect {
        Defect::MissingSnapshotId => error.says(
            ErrorKind::DataInvalid,
            "Live manifest entry is missing snapshot_id"@,
        ),
        Defect::MissingSequenceNumber => error.says(
            ErrorKind::DataInvalid,
            "Live manifest entry is missing sequence_number"@,
        ),
        Defect::RowIdOverflow => false,
    }
}

/// A manifest that is to be written now.
#[derive(Debug, Clone, PartialEq, Eq)]
pub struct ManifestToWrite {
    pub writer: ManifestWriterConfig,
    pub entries: Vec<ExistingEntry>,
}

/// A rewrite under way: manifest after manifest is handed out to be written, and
/// taken back as written.
#[derive(Debug)]
pub struct ManifestRewrite {
    version: FormatVersion,
    /// The manifests that have not been handed out yet, the next one last.
    rest: Vec<PlannedManifest>,
    /// The row id of the manifest that is out to be written.
    awaited: Option<Option<u64>>,
    written: Vec<ManifestFile>,
    replaced: u64,
    entries_processed: u64,
}

/// A written manifest, with the row id that it was planned with. Before the third
/// format version manifests carry none, and the manifest stays as it was written.
pub open spec fn with_row_id(
    manifest: ManifestFile,
    version: FormatVersion,
    row_id: Option<u64>,
) -> ManifestFile {
    if version == FormatVersion::V3 {
        ManifestFile { first_row_id: row_id, ..manifest }
    } else {
        manifest
    }
}

/// The row ids of the planned manifests.
pub open spec fn planned_row_ids(manifests: Seq<PlannedManifest>) -> Seq<Option<u64>> {
    manifests.map_values(|m: PlannedManifest| m.first_row_id)
}

/// What the summary says of a rewrite.
pub open spec fn rewrite_properties(
    created: nat,
    replaced: nat,
    kept: nat,
    entries: nat,
) -> Map<Seq<char>, Seq<char>> {
    Map::empty().insert(MANIFESTS_CREATED@, decimal(created)).insert(
        MANIFESTS_REPLACED@,
        decimal(replaced),
    ).insert(MANIFESTS_KEPT@, decimal(kept)).insert(ENTRIES_PROCESSED@, decimal(entries))
}

/// The lines in the manifest list of manifests that have been read.
pub open spec fn loaded_views(loaded: Seq<LoadedManifest>) -> Seq<ManifestFileView> {
    loaded.map_values(|m: LoadedManifest| m.manifest_file@)
}

impl RewriteManifestsProcess {
    /// The entries of the manifests that the rewrite comes to: the live entries,
    /// grouped by partition, each group rolled by the target size.
    pub open spec fn planned(self, loaded: Seq<LoadedManifest>) -> Seq<Seq<ExistingEntry>> {
        rolled_groups(
            grouped(all_live_entries(loaded)),
            manifest_capacity(self.bytes_per_entry, self.target_size_bytes),
        )
    }

    /// Whether these are the manifests to rewrite, each read once, in any order.
    pub open spec fn reads(self, loaded: Seq<LoadedManifest>) -> bool {
        loaded_views(loaded).to_multiset() == manifest_views(self.to_rewrite@).to_multiset()
    }

    /// Whether this is the rewrite that these manifests come to, with none of the
    /// new manifests handed out yet.
    pub open spec fn begins(
        self,
        version: FormatVersion,
        loaded: Seq<LoadedManifest>,
        rewrite: ManifestRewrite,
    ) -> bool {
        &&& first_defect(loaded) is None
        &&& rewrite.version() == version
        &&& planned_entries(rewrite.pending()) == self.planned(loaded)
        &&& row_ids_planned(rewrite.pending())
        &&& rewrite.awaited() is None
        &&& rewrite.written() == Seq::<ManifestFile>::empty()
        &&& rewrite.replaced() == self.to_rewrite@.len()
        &&& rewrite.entries_processed() == all_live_entries(loaded).len()
    }

    /// Plans the rewrite of the manifests, given in the order in which they were
    /// read.
    pub fn process_manifests(&self, version: FormatVersion, loaded: Vec<LoadedManifest>) -> (r:
        Result<ManifestRewrite, Error>)
        requires
            first_defect(loaded@) != Some(Defect::RowIdOverflow),
        ensures
            match r {
                Ok(rewrite) => self.begins(version, loaded@, rewrite),
                Err(error) => first_defect(loaded@) matches Some(defect) && reports_defect(
                    error,
                    defect,
                ),
            },
    {
        match find_defect(&loaded) {
            Some(Defect::MissingSnapshotId) => {
                return Err(
                    Error::new(
                        ErrorKind::DataInvalid,
                        "Live manifest entry is missing snapshot_id",
                    ),
                );
            },
            Some(Defect::MissingSequenceNumber) => {
                return Err(
                    Error::new(
                        ErrorKind::DataInvalid,
                        "Live manifest entry is missing sequence_number",
                    ),
                );
            },
            Some(Defect::RowIdOverflow) | None => {},
        }
        let entries = lift_live_entries(loaded);
        let entries_processed: u64 = entries.len() as u64;
        let ghost live = entries@;
        let groups = group_by_partition(entries);
        let ghost all = groups@;
        let ghost capacity = manifest_capacity(self.bytes_per_entry, self.target_size_bytes);
        let mut planned: Vec<PlannedManifest> = Vec::new();
        assert(all.take(0) =~= Seq::empty());
        assert(planned_entries(planned@) =~= rolled_groups(group_views(all.take(0)), capacity));
        for group in it: groups
            invariant
                it.seq() == all,
                capacity == manifest_capacity(self.bytes_per_entry, self.target_size_bytes),
                planned_entries(planned@) == rolled_groups(
                    group_views(all.take(it.index())),
                    capacity,
                ),
                row_ids_planned(planned@),
        {
            let ghost i = it.index();
            assert(group_views(all.take(i + 1)).drop_last() =~= group_views(all.take(i)));
            assert(group_views(all.take(i + 1)).last() == all[i]@);
            roll_group(&mut planned, group, self.bytes_per_entry, self.target_size_bytes);
        }
        assert(all.take(all.len() as int) =~= all);
        let rest = reversed(planned);
        assert(rest@.reverse() =~= planned@);
        Ok(
            ManifestRewrite {
                version,
                rest,
                awaited: None,
                written: Vec::new(),
                replaced: self.to_rewrite.len() as u64,
                entries_processed,
            },
        )
    }
}

fn reversed(planned: Vec<PlannedManifest>) -> (r: Vec<PlannedManifest>)
    ensures
        r@ == planned@.reverse(),
{
    let mut source = planned;
    let ghost all = planned@;
    let mut out: Vec<PlannedManifest> = Vec::new();
    while source.len() > 0
        invariant
            source@ == all.take(source@.len() as int),
            source@.len() <= all.len(),
            out@ == all.skip(source@.len() as int).reverse(),
        decreases source@.len(),
    {
        let ghost n = source@.len();
        if let Some(manifest) = source.pop() {
            out.push(manifest);
            assert(source@ =~= all.take(n - 1));
            assert(out@ =~= all.skip(n - 1).reverse());
        }
    }
    assert(all.skip(0) =~= all);
    out
}

impl ManifestRewrite {
    /// The format version that manifests are written in.
    pub closed spec fn version(self) -> FormatVersion {
        self.version
    }

    /// The manifests that have not been handed out yet, in order.
    pub closed spec fn pending(self) -> Seq<PlannedManifest> {
        self.rest@.reverse()
    }

    /// Whether a manifest is out to be written, and the row id that it was planned
    /// with.
    pub closed spec fn awaited(self) -> Option<Option<u64>> {
        self.awaited
    }

    /// The manifests that have been written, in order.
    pub closed spec fn written(self) -> Seq<ManifestFile> {
        self.written@
    }

    /// The row ids of all the manifests of the rewrite, in order: of those written,
    /// the one that is out and those pending.
    pub open spec fn row_ids(self) -> Seq<Option<u64>> {
        self.written().map_values(|m: ManifestFile| m.first_row_id) + (match self.awaited() {
            Some(row_id) => seq![row_id],
            None => Seq::empty(),
        }) + planned_row_ids(self.pending())
    }

    /// Whether this rewrite is the other one carried through: all its manifests have
    /// been written, and in the third format version with the row ids that they had
    /// been planned with.
    pub open spec fn completes(self, begun: ManifestRewrite) -> bool {
        &&& self.pending().len() == 0
        &&& self.awaited() is None
        &&& self.version() == begun.version()
        &&& self.row_ids().len() == begun.row_ids().len()
        &&& self.version() == FormatVersion::V3 ==> self.row_ids() == begun.row_ids()
    }

    /// The number of manifests that are rewritten.
    pub closed spec fn replaced(self) -> nat {
        self.replaced as nat
    }

    /// The number of entries that are rewritten.
    pub closed spec fn entries_processed(self) -> nat {
        self.entries_processed as nat
    }

    /// Hands out the next manifest to be written, under a name of its own.
    pub fn next_manifest(&mut self, producer: &mut SnapshotProducer<'_>) -> (r: Option<
        ManifestToWrite,
    >)
        requires
            old(self).awaited() is None,
        ensures
            final(self).version() == old(self).version(),
            final(self).written() == old(self).written(),
            final(self).replaced() == old(self).replaced(),
            final(self).entries_processed() == old(self).entries_processed(),
            final(self).row_ids() == old(self).row_ids(),
            match r {
                Some(manifest) => {
                    &&& old(self).pending().len() > 0
                    &&& manifest.entries@ == old(self).pending()[0].entries@
                    &&& old(producer).next_writer(ManifestContentType::Data, manifest.writer)
                    &&& *final(producer) == old(producer).counted()
                    &&& final(self).pending() == old(self).pending().skip(1)
                    &&& final(self).awaited() == Some(old(self).pending()[0].first_row_id)
                },
                None => {
                    &&& old(self).pending().len() == 0
                    &&& final(self).pending() == old(self).pending()
                    &&& final(self).awaited() is None
                    &&& *final(producer) == *old(producer)
                },
            },
    {
        match self.rest.pop() {
            Some(planned) => {
                assert(self.pending() =~= old(self).pending().skip(1));
                self.awaited = Some(planned.first_row_id);
                assert(self.row_ids() =~= old(self).row_ids());
                let writer = producer.new_manifest_writer(ManifestContentType::Data);
                Some(ManifestToWrite { writer, entries: planned.entries })
            },
            None => None,
        }
    }

    /// Takes back the manifest that was out, as it was written.
    pub fn manifest_written(&mut self, written: ManifestFile)
        requires
            old(self).awaited() is Some,
        ensures
            final(self).version() == old(self).version(),
            final(self).pending() == old(self).pending(),
            final(self).replaced() == old(self).replaced(),
            final(self).entries_processed() == old(self).entries_processed(),
            final(self).awaited() is None,
            final(self).written() == old(self).written().push(
                with_row_id(written, old(self).version(), old(self).awaited()->0),
            ),
            final(self).row_ids().len() == old(self).row_ids().len(),
            old(self).version() == FormatVersion::V3 ==> final(self).row_ids() == old(
                self,
            ).row_ids(),
    {
        let mut manifest = written;
        if let Some(row_id) = self.awaited {
            if self.version == FormatVersion::V3 {
                manifest.first_row_id = row_id;
            }
        }
        self.awaited = None;
        self.written.push(manifest);
        assert(self.version == FormatVersion::V3 ==> self.row_ids() =~= old(self).row_ids());
    }

    /// Ends the rewrite: the new manifests, then the kept ones, and what the
    /// summary says of it.
    pub fn finish(self, kept: Vec<ManifestFile>) -> (r: ProcessedManifests)
        requires
            self.awaited() is None,
            self.pending().len() == 0,
        ensures
            r.manifests@ == self.written() + kept@,
            r.summary_properties@ == rewrite_properties(
                self.written().len(),
                self.replaced(),
                kept@.len(),
                self.entries_processed(),
            ),
    {
        let created: u64 = self.written.len() as u64;
        let kept_count: u64 = kept.len() as u64;
        let mut manifests = self.written;
        let mut kept = kept;
        manifests.append(&mut kept);
        ProcessedManifests::new(manifests).with_property(
            MANIFESTS_CREATED,
            decimal_text(created),
        ).with_property(MANIFESTS_REPLACED, decimal_text(self.replaced)).with_property(
            MANIFESTS_KEPT,
            decimal_text(kept_count),
        ).with_property(ENTRIES_PROCESSED, decimal_text(self.entries_processed))
    }
}

} // verus!
