//! What holds of manifests as mathematical values.

use vstd::prelude::*;

use crate::grouping::group_views;
use crate::lineage::{ExistingEntry, LoadedManifest};
use crate::manifest::{manifest_views, may_have, ManifestEntry, ManifestFile, ManifestStatus};
use crate::rewrite_manifests::{loaded_views, planned_row_ids};
use crate::rolling::{planned_entries, PlannedManifest};

verus! {

/// Manifest files with the same view say the same in every field.
pub proof fn law_view_holds_every_field(a: ManifestFile, b: ManifestFile)
    ensures
        a@ == b@ <==> {
            &&& a.manifest_path@ == b.manifest_path@
            &&& a.manifest_length == b.manifest_length
            &&& a.partition_spec_id == b.partition_spec_id
            &&& a.content == b.content
            &&& a.sequence_number == b.sequence_number
            &&& a.min_sequence_number == b.min_sequence_number
            &&& a.added_snapshot_id == b.added_snapshot_id
            &&& a.added_files_count == b.added_files_count
            &&& a.existing_files_count == b.existing_files_count
            &&& a.deleted_files_count == b.deleted_files_count
            &&& a.added_rows_count == b.added_rows_count
            &&& a.existing_rows_count == b.existing_rows_count
            &&& a.deleted_rows_count == b.deleted_rows_count
            &&& a.first_row_id == b.first_row_id
            &&& a.details@ == b.details@
        },
{
}

/// Sequences of manifests, entries and groups are viewed item by item.
pub proof fn law_views_go_item_by_item(
    manifests: Seq<ManifestFile>,
    loaded: Seq<LoadedManifest>,
    planned: Seq<PlannedManifest>,
    groups: Seq<Vec<ExistingEntry>>,
)
    ensures
        manifest_views(manifests).len() == manifests.len(),
        forall|i: int|
            0 <= i < manifests.len() ==> #[trigger] manifest_views(manifests)[i] == manifests[i]@,
        loaded_views(loaded).len() == loaded.len(),
        forall|i: int|
            0 <= i < loaded.len() ==> #[trigger] loaded_views(loaded)[i]
                == loaded[i].manifest_file@,
        planned_entries(planned).len() == planned.len(),
        forall|i: int|
            0 <= i < planned.len() ==> #[trigger] planned_entries(planned)[i]
                == planned[i].entries@,
        planned_row_ids(planned).len() == planned.len(),
        forall|i: int|
            0 <= i < planned.len() ==> #[trigger] planned_row_ids(planned)[i]
                == planned[i].first_row_id,
        group_views(groups).len() == groups.len(),
        forall|i: int| 0 <= i < groups.len() ==> #[trigger] group_views(groups)[i] == groups[i]@,
{
}

/// An entry is live unless it lists its file as deleted.
pub proof fn law_entry_is_live_unless_deleted(entry: ManifestEntry)
    ensures
        entry.status == ManifestStatus::Added ==> entry.alive(),
        entry.status == ManifestStatus::Existing ==> entry.alive(),
        entry.status == ManifestStatus::Deleted ==> !entry.alive(),
{
}

/// There may be files unless it is known that there are none.
pub proof fn law_only_a_known_zero_rules_files_out(count: Option<u32>)
    ensures
        !may_have(count) <==> count == Some(0u32),
{
}

} // verus!
