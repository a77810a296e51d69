//! What the calls of a rewrite return.

use vstd::prelude::*;

use crate::commit_outcomes::{has_counted, writes_manifest};
use crate::error::{Error, ErrorKind};
use crate::grouping::{group_by_partition, grouped};
use crate::lineage::{
    all_live_entries, find_defect, first_defect, lift_live_entries, Defect, ExistingEntry,
    LoadedManifest,
};
use crate::manifest::{
    manifest_views, FormatVersion, ManifestContentType, ManifestEntry, ManifestFile,
};
use crate::manifest_laws::law_view_holds_every_field;
use crate::planning_laws::{
    law_group_is_rolled_by_size, law_new_manifest_has_one_tuple, law_new_manifests_go_by_size,
    law_new_manifests_list_the_groups_in_order, law_planned_row_id_is_the_smallest, same_partition,
};
use crate::properties::Properties;
use crate::rewrite_laws::law_rewrite_keeps_entries;
use crate::rewrite_manifests::{
    check_sums, is_rewritable, to_keep, to_rewrite, total_entries, total_size, ManifestRewrite,
    ManifestToWrite, RewriteDecision, RewriteManifestsAction, RewriteManifestsOperation,
    RewriteManifestsProcess, Selection,
};
use crate::rolling::{planned_entries, roll_group, row_ids_planned, PlannedManifest};
use crate::selection_laws::{
    law_entry_size_is_the_average, law_nothing_to_do_with_one_that_fits,
    law_only_the_row_id_is_set, law_rewrite_reports_four_counts, lists_live_data, writes,
};
use crate::snapshot::{ProcessedManifests, SnapshotProducer};
use crate::table::{Operation, TableMetadata};
use crate::text_laws::{law_parsed_number_is_the_value_of_its_digits, place_value};
use crate::value_outcomes::{digits_of, is_number};

verus! {

/// A new action has nothing set.
pub proof fn law_new_action(r: RewriteManifestsAction, key: Seq<char>)
    requires
        call_ensures(RewriteManifestsAction::new, (), r),
    ensures
        r.target_size_bytes is None,
        !r.snapshot_properties@.contains_key(key),
{
}

/// Setting one thing leaves the other as it was.
pub proof fn law_set_action(
    action: RewriteManifestsAction,
    size: u64,
    sized: RewriteManifestsAction,
    properties: Properties,
    propertied: RewriteManifestsAction,
)
    requires
        call_ensures(RewriteManifestsAction::set_target_size_bytes, (action, size), sized),
        call_ensures(
            RewriteManifestsAction::set_snapshot_properties,
            (action, properties),
            propertied,
        ),
    ensures
        sized.target_size_bytes == Some(size),
        sized.snapshot_properties@ == action.snapshot_properties@,
        propertied.target_size_bytes == action.target_size_bytes,
        propertied.snapshot_properties@ == properties@,
{
}

/// Whether the error is that the table has no snapshot to rewrite.
pub open spec fn says_no_snapshot(error: Error) -> bool {
    &&& error.kind == ErrorKind::PreconditionFailed
    &&& error.message@ == "RewriteManifests requires the table to have a current snapshot"@
}

/// The manifest list to rewrite is that of the current snapshot. Without one there
/// is an error.
pub proof fn law_manifest_list_to_rewrite(
    action: &RewriteManifestsAction,
    table: &TableMetadata,
    r: Result<&String, Error>,
)
    requires
        call_ensures(RewriteManifestsAction::manifest_list_to_rewrite, (action, table), r),
    ensures
        r is Ok <==> table.current_snapshot is Some,
        r matches Ok(path) ==> path@ == table.current_snapshot->0.manifest_list@,
        r matches Err(error) ==> says_no_snapshot(error),
{
}

/// The manifests that may hold live data of the default partition spec, in order.
pub open spec fn live_data(manifests: Seq<ManifestFile>, default_spec_id: i32) -> Seq<
    ManifestFile,
> {
    manifests.filter(|m: ManifestFile| lists_live_data(m, default_spec_id))
}

/// The other manifests, in order.
pub open spec fn all_else(manifests: Seq<ManifestFile>, default_spec_id: i32) -> Seq<ManifestFile> {
    manifests.filter(|m: ManifestFile| !lists_live_data(m, default_spec_id))
}

proof fn lemma_selected(manifests: Seq<ManifestFile>, default_spec_id: i32)
    ensures
        to_rewrite(manifests, default_spec_id) == live_data(manifests, default_spec_id),
        to_keep(manifests, default_spec_id) == all_else(manifests, default_spec_id),
{
    let a = |m: ManifestFile| is_rewritable(m, default_spec_id);
    let b = |m: ManifestFile| lists_live_data(m, default_spec_id);
    let c = |m: ManifestFile| !is_rewritable(m, default_spec_id);
    let d = |m: ManifestFile| !lists_live_data(m, default_spec_id);
    assert(a =~= b);
    assert(c =~= d);
}

/// Whether this is the size that manifests are rewritten to: what the action was
/// told, or else the number that the property "commit.manifest.target-size-bytes"
/// holds, or else eight mebibytes.
pub open spec fn is_target_size(
    size: u64,
    action: RewriteManifestsAction,
    table: TableMetadata,
) -> bool {
    let properties = table.properties@;
    let key = "commit.manifest.target-size-bytes"@;
    match action.target_size_bytes {
        Some(own) => size == own,
        None => if properties.contains_key(key) && is_number(properties[key]) {
            place_value(digits_of(properties[key])) == size
        } else {
            size == 8 * 1024 * 1024
        },
    }
}

/// Whether this is the size that an entry of the manifests is taken to have: their
/// bytes by their entries, at least one, and 256 where they say of none.
pub open spec fn is_entry_size(size: u64, manifests: Seq<ManifestFile>) -> bool {
    let bytes = total_size(manifests);
    let entries = total_entries(manifests);
    if entries == 0 {
        size == 256
    } else if bytes < entries {
        size == 1
    } else {
        size * entries <= bytes && bytes < (size + 1) * entries
    }
}

/// Whether a rewrite of the selected manifests is of no use, for this target: there
/// are none, or there is one that is no larger.
pub open spec fn is_of_no_use(selected: Seq<ManifestFile>, target: u64) -> bool {
    ||| selected.len() == 0
    ||| selected.len() == 1 && selected[0].manifest_length <= target
}

proof fn lemma_target_size(action: RewriteManifestsAction, table: TableMetadata)
    ensures
        is_target_size(action.target_size(table.properties@), action, table),
{
    let key = "commit.manifest.target-size-bytes"@;
    law_parsed_number_is_the_value_of_its_digits(table.properties@[key]);
}

proof fn lemma_of_no_use(selected: Seq<ManifestFile>, target: u64)
    ensures
        crate::rewrite_manifests::nothing_to_do(selected, target) <==> is_of_no_use(
            selected,
            target,
        ),
{
    if selected.len() == 1 {
        law_nothing_to_do_with_one_that_fits(selected[0], selected, target);
        assert(seq![selected[0]] =~= selected);
    } else if selected.len() == 0 {
        assert(selected =~= Seq::empty());
    }
}

/// Whether a rewrite is set up as it should be: with the manifests that may hold
/// live data of the default spec, and all others kept, each in order; with the
/// target, and with the average size of an entry.
pub open spec fn is_set_up(
    operation: RewriteManifestsOperation,
    process: RewriteManifestsProcess,
    action: RewriteManifestsAction,
    table: TableMetadata,
    manifests: Seq<ManifestFile>,
) -> bool {
    &&& process.to_rewrite@ == live_data(manifests, table.default_partition_spec_id)
    &&& operation.kept@ == all_else(manifests, table.default_partition_spec_id)
    &&& is_target_size(process.target_size_bytes, action, table)
    &&& is_entry_size(process.bytes_per_entry, process.to_rewrite@)
}

/// An action without a current snapshot fails. Otherwise it selects manifests to
/// rewrite, unless that is of no use.
pub proof fn law_select(
    action: &RewriteManifestsAction,
    table: &TableMetadata,
    manifests: Vec<ManifestFile>,
    target: u64,
    r: Result<Selection, Error>,
)
    requires
        call_ensures(RewriteManifestsAction::select, (action, table, manifests), r),
        is_target_size(target, *action, *table),
    ensures
        ({
            let selected = live_data(manifests@, table.default_partition_spec_id);
            match r {
                Err(error) => table.current_snapshot is None && says_no_snapshot(error),
                Ok(Selection::Nothing) => table.current_snapshot is Some && is_of_no_use(
                    selected,
                    target,
                ),
                Ok(Selection::Rewrite { operation, process }) => {
                    &&& table.current_snapshot is Some
                    &&& !is_of_no_use(selected, target)
                    &&& is_set_up(operation, process, *action, *table, manifests@)
                },
            }
        }),
{
    let selected = live_data(manifests@, table.default_partition_spec_id);
    lemma_selected(manifests@, table.default_partition_spec_id);
    lemma_target_size(*action, *table);
    lemma_of_no_use(selected, target);
    law_entry_size_is_the_average(selected);
}

/// An action without a current snapshot fails. It commits nothing where a rewrite is
/// of no use. Otherwise it sets the rewrite up, with a producer that adds no files,
/// says in the summary what the user asked for, and has a version 7 UUID.
pub proof fn law_decide<'a>(
    action: &RewriteManifestsAction,
    table: &'a TableMetadata,
    manifests: Vec<ManifestFile>,
    target: u64,
    r: Result<RewriteDecision<'a>, Error>,
)
    requires
        call_ensures(RewriteManifestsAction::decide, (action, table, manifests), r),
        is_target_size(target, *action, *table),
    ensures
        ({
            let selected = live_data(manifests@, table.default_partition_spec_id);
            match r {
                Err(error) => table.current_snapshot is None && says_no_snapshot(error),
                Ok(RewriteDecision::Done(commit)) => {
                    &&& table.current_snapshot is Some
                    &&& is_of_no_use(selected, target)
                    &&& commit.updates@.len() == 0
                    &&& commit.requirements@.len() == 0
                },
                Ok(RewriteDecision::Rewrite { producer, operation, process }) => {
                    &&& table.current_snapshot is Some
                    &&& !is_of_no_use(selected, target)
                    &&& is_set_up(operation, process, *action, *table, manifests@)
                    &&& producer.table == table
                    &&& producer.snapshot_id >= 0
                    &&& forall|i: int|
                        0 <= i < table.snapshot_ids@.len() ==> table.snapshot_ids@[i]
                            != producer.snapshot_id
                    &&& producer.key_metadata is None
                    &&& producer.snapshot_properties@ == action.snapshot_properties@
                    &&& producer.added_data_files@.len() == 0
                    &&& producer.manifest_counter == 0
                    &&& (producer.commit_uuid >> 76) & 0xf == 7
                    &&& (producer.commit_uuid >> 62) & 0x3 == 2
                },
            }
        }),
{
    let selected = live_data(manifests@, table.default_partition_spec_id);
    lemma_selected(manifests@, table.default_partition_spec_id);
    lemma_target_size(*action, *table);
    lemma_of_no_use(selected, target);
    law_entry_size_is_the_average(selected);
}

/// Sums are found to fit just when the bytes and the entries of the manifests to
/// rewrite are 64-bit integers.
pub proof fn law_check_sums(manifests: &Vec<ManifestFile>, default_spec_id: i32, r: bool)
    requires
        call_ensures(check_sums, (manifests, default_spec_id), r),
    ensures
        r <==> {
            let selected = live_data(manifests@, default_spec_id);
            total_size(selected) <= 0xffff_ffff_ffff_ffff && total_entries(selected)
                <= 0xffff_ffff_ffff_ffff
        },
{
    lemma_selected(manifests@, default_spec_id);
}

/// A rewrite replaces, deletes nothing, and hands on the kept manifests one by one,
/// each with every field as it is.
pub proof fn law_rewrite_operation(
    operation: &RewriteManifestsOperation,
    kind: Operation,
    deleted: Vec<ManifestEntry>,
    existing: Vec<ManifestFile>,
    i: int,
)
    requires
        call_ensures(RewriteManifestsOperation::operation, (operation,), kind),
        call_ensures(RewriteManifestsOperation::delete_entries, (operation,), deleted),
        call_ensures(RewriteManifestsOperation::existing_manifest, (operation,), existing),
    ensures
        kind == Operation::Replace,
        deleted@.len() == 0,
        existing@.len() == operation.kept@.len(),
        0 <= i < existing@.len() ==> {
            let a = existing@[i];
            let b = operation.kept@[i];
            &&& a.manifest_path@ == b.manifest_path@
            &&& a.manifest_length == b.manifest_length
            &&& a.partition_spec_id == b.partition_spec_id
            &&& a.content == b.content
            &&& a.sequence_number == b.sequence_number
            &&& a.min_sequence_number == b.min_sequence_number
            &&& a.added_snapshot_id == b.added_snapshot_id
            &&& a.added_files_count == b.added_files_count
            &&& a.existing_files_count == b.existing_files_count
            &&& a.deleted_files_count == b.deleted_files_count
            &&& a.added_rows_count == b.added_rows_count
            &&& a.existing_rows_count == b.existing_rows_count
            &&& a.deleted_rows_count == b.deleted_rows_count
            &&& a.first_row_id == b.first_row_id
            &&& a.details@ == b.details@
        },
{
    assert(manifest_views(existing@).len() == existing@.len());
    assert(manifest_views(operation.kept@).len() == operation.kept@.len());
    if 0 <= i < existing@.len() {
        assert(manifest_views(existing@)[i] == existing@[i]@);
        assert(manifest_views(operation.kept@)[i] == operation.kept@[i]@);
        law_view_holds_every_field(existing@[i], operation.kept@[i]);
    }
}

/// Manifests are found without defect just when they have none, and the first defect
/// is found.
pub proof fn law_find_defect(loaded: &Vec<LoadedManifest>, r: Option<Defect>)
    requires
        call_ensures(find_defect, (loaded,), r),
    ensures
        match r {
            None => forall|m: int|
                0 <= m < loaded@.len() ==> (#[trigger] loaded@[m]).defect() is None,
            Some(defect) => exists|m: int| #[trigger]
                crate::lineage_laws::fails_at(loaded@, m, defect),
        },
{
    crate::lineage_laws::law_defect_is_that_of_the_first_manifest(loaded@);
}

/// Lifting one more manifest lifts the same as before, and its own live entries
/// after that.
pub proof fn law_lift_one_more(
    loaded: Vec<LoadedManifest>,
    lifted: Vec<ExistingEntry>,
    more: Vec<LoadedManifest>,
    manifest: LoadedManifest,
    r: Vec<ExistingEntry>,
)
    requires
        call_ensures(lift_live_entries, (loaded,), lifted),
        call_ensures(lift_live_entries, (more,), r),
        more@ == loaded@.push(manifest),
    ensures
        loaded@.len() == 0 ==> lifted@.len() == 0,
        r@ == lifted@ + manifest.live_entries(),
{
    crate::lineage_laws::law_one_more_manifest_is_lifted_last(loaded@, manifest);
}

/// Grouping one more entry puts it last in the group of its partition values, or
/// makes a group of it where there is none.
pub proof fn law_group_one_more(
    entries: Vec<ExistingEntry>,
    groups: Vec<Vec<ExistingEntry>>,
    more: Vec<ExistingEntry>,
    entry: ExistingEntry,
    r: Vec<Vec<ExistingEntry>>,
    j: int,
)
    requires
        call_ensures(group_by_partition, (entries,), groups),
        call_ensures(group_by_partition, (more,), r),
        more@ == entries@.push(entry),
    ensures
        entries@.len() == 0 ==> groups@.len() == 0,
        0 <= j < groups@.len() ==> {
            &&& groups@[j]@.len() > 0
            &&& same_partition(groups@[j]@[0], entry) ==> r@.len() == groups@.len() && r@[j]@
                == groups@[j]@.push(entry)
            &&& !same_partition(groups@[j]@[0], entry) ==> r@.len() >= groups@.len() && r@[j]@
                == groups@[j]@
        },
        (forall|k: int|
            0 <= k < groups@.len() ==> !same_partition((#[trigger] groups@[k])@[0], entry))
            ==> r@.len() == groups@.len() + 1 && r@[groups@.len() as int]@ == seq![entry],
{
    use_groups(entries@, groups@);
    use_groups(more@, r@);
    let old_groups = grouped(entries@);
    crate::planning_laws::law_entry_joins_its_group(entries@, entry);
    crate::grouping::lemma_grouped_push(entries@, entry);
    if entries@.len() == 0 {
        assert(entries@ =~= Seq::empty());
    }
    if exists|k: int| #[trigger] crate::planning_laws::belongs_to(entry, old_groups, k) {
        let k = choose|k: int| #[trigger] crate::planning_laws::belongs_to(entry, old_groups, k);
        assert(old_groups[k] == groups@[k]@);
        assert(same_partition(groups@[k]@[0], entry));
        assert(grouped(more@) == old_groups.update(k, old_groups[k].push(entry)));
        if 0 <= j < groups@.len() {
            assert(old_groups[j] == groups@[j]@);
            assert(grouped(more@)[j] == r@[j]@);
            assert(old_groups[j].len() > 0);
            if same_partition(groups@[j]@[0], entry) {
                assert(crate::planning_laws::belongs_to(entry, old_groups, j));
            }
        }
    } else {
        assert(grouped(more@) == old_groups.push(seq![entry]));
        assert(grouped(more@)[groups@.len() as int] == r@[groups@.len() as int]@);
        if 0 <= j < groups@.len() {
            assert(old_groups[j] == groups@[j]@);
            assert(grouped(more@)[j] == r@[j]@);
            assert(old_groups[j].len() > 0);
            assert(!crate::planning_laws::belongs_to(entry, old_groups, j));
        }
    }
}

proof fn use_groups(entries: Seq<ExistingEntry>, groups: Seq<Vec<ExistingEntry>>)
    requires
        crate::grouping::group_views(groups) == grouped(entries),
    ensures
        groups.len() == grouped(entries).len(),
        forall|j: int| 0 <= j < groups.len() ==> #[trigger] groups[j]@ == grouped(entries)[j],
{
    assert(crate::grouping::group_views(groups).len() == groups.len());
    assert forall|j: int| 0 <= j < groups.len() implies #[trigger] groups[j]@ == grouped(
        entries,
    )[j] by {
        assert(crate::grouping::group_views(groups)[j] == groups[j]@);
    }
}

/// Rolling a group leaves what is planned alone, and plans manifests after it that
/// list the group in order. Each holds a single entry or is no larger than the
/// target; all but the last have no room for another entry.
pub proof fn law_roll_group(
    planned: &mut Vec<PlannedManifest>,
    group: Vec<ExistingEntry>,
    bytes_per_entry: u64,
    target_size_bytes: u64,
    r: (),
)
    requires
        call_ensures(roll_group, (planned, group, bytes_per_entry, target_size_bytes), r),
        row_ids_planned(old(planned)@),
    ensures
        ({
            let before = old(planned)@.len() as int;
            let after = final(planned)@;
            let added = planned_entries(after).skip(before);
            &&& after.len() > before
            &&& forall|p: int|
                0 <= p < before ==> (#[trigger] after[p]).entries@ == old(planned)@[p].entries@
            &&& added.flatten() == group@
            &&& group@.len() > 0 ==> forall|p: int|
                before <= p < after.len() ==> (#[trigger] after[p]).entries@.len() > 0
            &&& forall|p: int|
                before <= p < after.len() ==> (#[trigger] after[p]).entries@.len() <= 1
                    || after[p].entries@.len() * bytes_per_entry <= target_size_bytes
                    || target_size_bytes == u64::MAX
            &&& forall|p: int|
                before <= p < after.len() - 1 ==> {
                    &&& ((#[trigger] after[p]).entries@.len() + 1) * bytes_per_entry
                        > target_size_bytes
                    &&& target_size_bytes < u64::MAX
                }
        }),
        row_ids_planned(final(planned)@),
{
    let before = old(planned)@.len() as int;
    let after = final(planned)@;
    let capacity = crate::rolling::manifest_capacity(bytes_per_entry, target_size_bytes);
    let manifests = crate::rolling::rolled(group@, capacity);
    law_group_is_rolled_by_size(group@, bytes_per_entry, target_size_bytes);
    assert(planned_entries(old(planned)@).len() == before);
    assert(planned_entries(after).len() == after.len());
    assert(planned_entries(after).skip(before) =~= manifests);
    assert forall|p: int| 0 <= p < after.len() implies (#[trigger] after[p]).entries@
        == planned_entries(after)[p] by {}
    assert forall|p: int| 0 <= p < before implies (#[trigger] after[p]).entries@ == old(
        planned,
    )@[p].entries@ by {
        assert(planned_entries(after)[p] == planned_entries(old(planned)@)[p]);
    }
    assert forall|p: int| before <= p < after.len() implies (#[trigger] after[p]).entries@
        == manifests[p - before] by {
        assert(planned_entries(after)[p] == manifests[p - before]);
    }
}

/// Processing fails just where the manifests have a defect, with the error for it.
/// Otherwise a rewrite begins that has written nothing yet.
pub proof fn law_process_manifests(
    process: &RewriteManifestsProcess,
    version: FormatVersion,
    loaded: Vec<LoadedManifest>,
    defect: Option<Defect>,
    r: Result<ManifestRewrite, Error>,
)
    requires
        call_ensures(
            RewriteManifestsProcess::process_manifests,
            (process, version, loaded),
            r,
        ),
        call_ensures(find_defect, (&loaded,), defect),
        defect != Some(Defect::RowIdOverflow),
    ensures
        match defect {
            None => r matches Ok(rewrite) && {
                &&& rewrite.version() == version
                &&& rewrite.awaited() is None
                &&& rewrite.written().len() == 0
                &&& rewrite.replaced() == process.to_rewrite@.len()
                &&& rewrite.entries_processed() == all_live_entries(loaded@).len()
            },
            Some(Defect::MissingSnapshotId) => r matches Err(e) && e.kind == ErrorKind::DataInvalid
                && e.message@ == "Live manifest entry is missing snapshot_id"@,
            Some(Defect::MissingSequenceNumber) => r matches Err(e) && e.kind
                == ErrorKind::DataInvalid && e.message@
                == "Live manifest entry is missing sequence_number"@,
            Some(Defect::RowIdOverflow) => false,
        },
{
}

/// The new manifests of a rewrite list just the live entries, group after group, and
/// each as often as before. As many entries are processed as are listed.
pub proof fn law_process_manifests_lists_all(
    process: &RewriteManifestsProcess,
    version: FormatVersion,
    loaded: Vec<LoadedManifest>,
    r: Result<ManifestRewrite, Error>,
)
    requires
        call_ensures(
            RewriteManifestsProcess::process_manifests,
            (process, version, loaded),
            r,
        ),
        r is Ok,
    ensures
        ({
            let listed = planned_entries(r->Ok_0.pending()).flatten();
            let live = all_live_entries(loaded@);
            &&& listed == grouped(live).flatten()
            &&& listed.to_multiset() == live.to_multiset()
            &&& listed.len() == r->Ok_0.entries_processed()
        }),
{
    law_rewrite_keeps_entries(*process, loaded@);
    law_new_manifests_list_the_groups_in_order(*process, loaded@);
}

/// A new manifest of a rewrite lists entries with the same partition values, at
/// least one. It holds a single one, or its entries are no larger than the target;
/// of two with the same partition values the first has no room for another entry.
/// Its row id is the smallest of its entries' that is not negative.
pub proof fn law_process_manifests_plans_each(
    process: &RewriteManifestsProcess,
    version: FormatVersion,
    loaded: Vec<LoadedManifest>,
    r: Result<ManifestRewrite, Error>,
    p: int,
    i: int,
    j: int,
)
    requires
        call_ensures(
            RewriteManifestsProcess::process_manifests,
            (process, version, loaded),
            r,
        ),
        r is Ok,
        0 <= p < r->Ok_0.pending().len(),
        0 <= i < r->Ok_0.pending()[p].entries@.len(),
        0 <= j < r->Ok_0.pending()[p].entries@.len(),
    ensures
        ({
            let pending = r->Ok_0.pending();
            let entries = pending[p].entries@;
            &&& same_partition(entries[i], entries[j])
            &&& entries.len() == 1 || entries.len() * process.bytes_per_entry
                <= process.target_size_bytes || process.target_size_bytes == u64::MAX
            &&& forall|k: int|
                p < k < pending.len() && same_partition(
                    entries[0],
                    (#[trigger] pending[k]).entries@[0],
                ) ==> {
                    &&& (entries.len() + 1) * process.bytes_per_entry > process.target_size_bytes
                    &&& process.target_size_bytes < u64::MAX
                }
            &&& pending[p].first_row_id matches Some(smallest) ==> {
                &&& exists|k: int|
                    0 <= k < entries.len() && (#[trigger] entries[k]).data_file.first_row_id is Some
                        && entries[k].data_file.first_row_id->0 as int == smallest
                &&& entries[i].data_file.first_row_id matches Some(own) ==> own < 0 || smallest
                    <= own
            }
            &&& pending[p].first_row_id is None ==> (entries[i].data_file.first_row_id matches Some(
                own,
            ) ==> own < 0)
        }),
{
    let pending = r->Ok_0.pending();
    let entries = pending[p].entries@;
    let planned = process.planned(loaded@);
    assert(planned_entries(pending).len() == pending.len());
    assert(planned_entries(pending)[p] == entries);
    law_new_manifest_has_one_tuple(*process, loaded@, p, i, j);
    law_new_manifests_go_by_size(*process, loaded@, p);
    law_planned_row_id_is_the_smallest(pending, p);
    assert forall|k: int|
        p < k < pending.len() && same_partition(
            entries[0],
            (#[trigger] pending[k]).entries@[0],
        ) implies {
        &&& (entries.len() + 1) * process.bytes_per_entry > process.target_size_bytes
        &&& process.target_size_bytes < u64::MAX
    } by {
        assert(planned_entries(pending)[k] == pending[k].entries@);
        assert(same_partition(planned[p][0], planned[k][0]));
    }
}

/// A rewrite hands out the next manifest that is pending, under a name of its own,
/// and awaits it. It hands out none just when none is pending.
pub proof fn law_next_manifest<'a>(
    rewrite: &mut ManifestRewrite,
    producer: &mut SnapshotProducer<'a>,
    r: Option<ManifestToWrite>,
)
    requires
        call_ensures(ManifestRewrite::next_manifest, (rewrite, producer), r),
    ensures
        r is Some <==> old(rewrite).pending().len() > 0,
        final(rewrite).version() == old(rewrite).version(),
        final(rewrite).written() == old(rewrite).written(),
        final(rewrite).replaced() == old(rewrite).replaced(),
        final(rewrite).entries_processed() == old(rewrite).entries_processed(),
        r matches Some(manifest) ==> {
            &&& manifest.entries@ == old(rewrite).pending()[0].entries@
            &&& writes_manifest(manifest.writer, *old(producer), ManifestContentType::Data)
            &&& has_counted(*old(producer), *final(producer))
            &&& final(producer).added_data_files == old(producer).added_data_files
            &&& final(rewrite).pending() == old(rewrite).pending().drop_first()
            &&& final(rewrite).awaited() == Some(old(rewrite).pending()[0].first_row_id)
        },
        r is None ==> {
            &&& final(rewrite).awaited() is None
            &&& *final(producer) == *old(producer)
        },
{
    if let Some(manifest) = r {
        crate::commit_outcomes::lemma_manifest_path(
            old(producer).table.location@,
            old(producer).commit_uuid,
            old(producer).manifest_counter,
        );
        assert(old(rewrite).pending().skip(1) =~= old(rewrite).pending().drop_first());
    }
}

/// A manifest that was written comes after those before it. In the third format
/// version it gets the row id that it was planned with, before that it stays as it
/// is.
pub proof fn law_manifest_written(rewrite: &mut ManifestRewrite, written: ManifestFile, r: ())
    requires
        call_ensures(ManifestRewrite::manifest_written, (rewrite, written), r),
        old(rewrite).awaited() is Some,
    ensures
        final(rewrite).version() == old(rewrite).version(),
        final(rewrite).pending() == old(rewrite).pending(),
        final(rewrite).replaced() == old(rewrite).replaced(),
        final(rewrite).entries_processed() == old(rewrite).entries_processed(),
        final(rewrite).awaited() is None,
        final(rewrite).written().len() == old(rewrite).written().len() + 1,
        final(rewrite).written().drop_last() == old(rewrite).written(),
        ({
            let last = final(rewrite).written().last();
            &&& last == (ManifestFile { first_row_id: last.first_row_id, ..written })
            &&& old(rewrite).version() == FormatVersion::V3 ==> last.first_row_id == old(
                rewrite,
            ).awaited()->0
            &&& old(rewrite).version() != FormatVersion::V3 ==> last.first_row_id
                == written.first_row_id
        }),
{
    law_only_the_row_id_is_set(written, old(rewrite).version(), old(rewrite).awaited()->0);
    assert(final(rewrite).written().drop_last() =~= old(rewrite).written());
}

/// A rewrite ends with the new manifests and then the kept ones, and says how many
/// manifests were created, replaced and kept, how many entries were processed, and
/// nothing else.
pub proof fn law_finish_rewrite(
    rewrite: ManifestRewrite,
    kept: Vec<ManifestFile>,
    r: ProcessedManifests,
    key: Seq<char>,
)
    requires
        call_ensures(ManifestRewrite::finish, (rewrite, kept), r),
    ensures
        r.manifests@ == rewrite.written() + kept@,
        ({
            let properties = r.summary_properties@;
            if key == "manifests-created"@ {
                properties.contains_key(key) && writes(properties[key], rewrite.written().len())
            } else if key == "manifests-replaced"@ {
                properties.contains_key(key) && writes(properties[key], rewrite.replaced())
            } else if key == "manifests-kept"@ {
                properties.contains_key(key) && writes(properties[key], kept@.len())
            } else if key == "entries-processed"@ {
                properties.contains_key(key) && writes(
                    properties[key],
                    rewrite.entries_processed(),
                )
            } else {
                !properties.contains_key(key)
            }
        }),
{
    law_rewrite_reports_four_counts(
        rewrite.written().len(),
        rewrite.replaced(),
        kept@.len(),
        rewrite.entries_processed(),
        key,
    );
}

/// Manifests can be lifted, and a rewrite of them begun, whenever row ids go on
/// throughout; a rewrite can be begun to be told which live entry lacks an id, too.
pub proof fn law_any_manifests_can_be_processed(
    process: &RewriteManifestsProcess,
    version: FormatVersion,
    loaded: Vec<LoadedManifest>,
)
    requires
        forall|m: int, i: int|
            0 <= m < loaded@.len() && 0 <= i < loaded@[m].entries@.len() ==> !(
            #[trigger] crate::lineage_laws::overflows_at(loaded@[m], i)),
    ensures
        call_requires(
            RewriteManifestsProcess::process_manifests,
            (process, version, loaded),
        ),
        (forall|m: int, i: int|
            0 <= m < loaded@.len() && 0 <= i < loaded@[m].entries@.len()
                ==> #[trigger] crate::lineage_laws::is_right_at(loaded@[m], i)) ==> call_requires(
            lift_live_entries,
            (loaded,),
        ),
{
    crate::lineage_laws::law_defect_is_that_of_the_first_manifest(loaded@);
    if let Some(defect) = first_defect(loaded@) {
        let m = choose|m: int| #[trigger] crate::lineage_laws::fails_at(loaded@, m, defect);
        crate::lineage_laws::law_defect_is_the_first_of_a_manifest(loaded@[m]);
        let i = choose|i: int| #[trigger]
            crate::lineage_laws::goes_wrong_at(loaded@[m], i, defect);
        assert(!crate::lineage_laws::overflows_at(loaded@[m], i));
        assert(!crate::lineage_laws::is_right_at(loaded@[m], i));
    }
}

/// An action takes any manifests whose bytes and entries are 64-bit integers, of any
/// table.
pub proof fn law_any_manifests_can_be_selected(
    action: &RewriteManifestsAction,
    table: &TableMetadata,
    manifests: Vec<ManifestFile>,
)
    requires
        total_size(live_data(manifests@, table.default_partition_spec_id)) <= u64::MAX,
        total_entries(live_data(manifests@, table.default_partition_spec_id)) <= u64::MAX,
    ensures
        call_requires(RewriteManifestsAction::select, (action, table, manifests)),
        table.snapshot_ids@.len() <= i64::MAX ==> call_requires(
            RewriteManifestsAction::decide,
            (action, table, manifests),
        ),
{
    lemma_selected(manifests@, table.default_partition_spec_id);
}

} // verus!
