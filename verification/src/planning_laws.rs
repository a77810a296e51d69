//! What holds of groups, and of the manifests that they are rolled into.

use vstd::prelude::*;
use vstd::seq_lib::lemma_flatten_concat;

use crate::grouping::{grouped, lemma_grouped_push, partitions};
use crate::lineage::{all_live_entries, ExistingEntry, LoadedManifest};
use crate::partition_laws::{law_key_tells_tuples_apart, same_tuple};
use crate::rewrite_laws::{
    all_of, law_manifest_fits_target, law_manifest_holds_one_partition, law_manifest_is_filled,
};
use crate::rewrite_manifests::RewriteManifestsProcess;
use crate::rolling::{
    is_smallest_row_id, lemma_roll_at_capacity, manifest_capacity, pieces, rolled, row_ids_planned,
    PlannedManifest,
};

verus! {

/// Whether the files of two entries have the same partition values, field by field.
pub open spec fn same_partition(a: ExistingEntry, b: ExistingEntry) -> bool {
    same_tuple(a.data_file.partition, b.data_file.partition)
}

proof fn lemma_same_partition(a: ExistingEntry, b: ExistingEntry)
    ensures
        a.partition_key() == b.partition_key() <==> same_partition(a, b),
{
    law_key_tells_tuples_apart(a.data_file.partition, b.data_file.partition);
}

/// Whether this is the group that an entry belongs to: its entries have the same
/// partition values.
pub open spec fn belongs_to(entry: ExistingEntry, groups: Seq<Seq<ExistingEntry>>, j: int) -> bool {
    &&& 0 <= j < groups.len()
    &&& groups[j].len() > 0
    &&& same_partition(groups[j][0], entry)
}

/// No entries make no groups. One more entry comes last in the group of its
/// partition values; where there is none it makes one, after the others.
pub proof fn law_entry_joins_its_group(entries: Seq<ExistingEntry>, entry: ExistingEntry)
    ensures
        grouped(Seq::empty()).len() == 0,
        forall|j: int| #[trigger]
            belongs_to(entry, grouped(entries), j) ==> grouped(entries.push(entry)) == grouped(
                entries,
            ).update(j, grouped(entries)[j].push(entry)),
        (forall|j: int| !#[trigger] belongs_to(entry, grouped(entries), j)) ==> grouped(
            entries.push(entry),
        ) == grouped(entries).push(seq![entry]),
{
    let groups = grouped(entries);
    let keys = partitions(entries);
    lemma_grouped_push(entries, entry);
    assert(groups.len() == keys.len());
    assert forall|j: int| 0 <= j < keys.len() implies (#[trigger] belongs_to(entry, groups, j)
        <==> keys[j] == entry.partition_key()) by {
        assert(groups[j].len() > 0);
        lemma_same_partition(groups[j][0], entry);
    }
    assert forall|j: int| #[trigger] belongs_to(entry, groups, j) implies grouped(
        entries.push(entry),
    ) == groups.update(j, groups[j].push(entry)) by {
        assert(keys[j] == entry.partition_key());
    }
    if forall|j: int| !#[trigger] belongs_to(entry, groups, j) {
        assert(!keys.contains(entry.partition_key())) by {
            if keys.contains(entry.partition_key()) {
                let j = choose|j: int| 0 <= j < keys.len() && keys[j] == entry.partition_key();
                assert(belongs_to(entry, groups, j));
            }
        }
    }
}

proof fn lemma_pieces(entries: Seq<ExistingEntry>, n: nat)
    requires
        n > 0,
    ensures
        pieces(entries, n).len() > 0,
        pieces(entries, n).flatten() == entries,
        forall|m: int|
            0 <= m < pieces(entries, n).len() - 1 ==> (#[trigger] pieces(entries, n)[m]).len() == n,
        pieces(entries, n).last().len() <= n,
        entries.len() > 0 ==> pieces(entries, n).last().len() > 0,
    decreases entries.len(),
{
    broadcast use {Seq::lemma_flatten_push, Seq::lemma_flatten_singleton};

    if entries.len() <= n {
        assert(seq![entries].flatten() == entries);
    } else {
        let first = entries.take(n as int);
        let rest = entries.skip(n as int);
        lemma_pieces(rest, n);
        lemma_flatten_concat(seq![first], pieces(rest, n));
        assert(seq![first].flatten() == first);
        assert(first + rest =~= entries);
        assert(pieces(entries, n).last() == pieces(rest, n).last());
        assert forall|m: int| 0 <= m < pieces(entries, n).len() - 1 implies (
        #[trigger] pieces(entries, n)[m]).len() == n by {
            if m > 0 {
                assert(pieces(entries, n)[m] == pieces(rest, n)[m - 1]);
            }
        }
    }
}

/// The manifests that a group is rolled into list its entries in order. None is
/// larger than the target unless it holds a single entry, and all but the last have
/// no room for another. A target that is the largest integer is never exceeded.
pub proof fn law_group_is_rolled_by_size(
    entries: Seq<ExistingEntry>,
    bytes_per_entry: u64,
    target_size_bytes: u64,
)
    ensures
        ({
            let manifests = rolled(entries, manifest_capacity(bytes_per_entry, target_size_bytes));
            &&& manifests.len() > 0
            &&& manifests.flatten() == entries
            &&& entries.len() > 0 ==> forall|m: int|
                0 <= m < manifests.len() ==> (#[trigger] manifests[m]).len() > 0
            &&& forall|m: int|
                0 <= m < manifests.len() ==> (#[trigger] manifests[m]).len() <= 1
                    || manifests[m].len() * bytes_per_entry <= target_size_bytes
                    || target_size_bytes == u64::MAX
            &&& forall|m: int|
                0 <= m < manifests.len() - 1 ==> {
                    &&& ((#[trigger] manifests[m]).len() + 1) * bytes_per_entry > target_size_bytes
                    &&& target_size_bytes < u64::MAX
                }
        }),
{
    broadcast use {Seq::lemma_flatten_push, Seq::lemma_flatten_singleton};

    let capacity = manifest_capacity(bytes_per_entry, target_size_bytes);
    let manifests = rolled(entries, capacity);
    lemma_roll_at_capacity(bytes_per_entry, target_size_bytes, 0);
    match capacity {
        None => {
            assert(seq![entries].flatten() == entries);
            if bytes_per_entry == 0 {
                assert(entries.len() * bytes_per_entry == 0) by (nonlinear_arith)
                    requires
                        bytes_per_entry == 0,
                ;
            }
        },
        Some(n) => {
            lemma_pieces(entries, n);
            assert forall|m: int| 0 <= m < manifests.len() implies (
            #[trigger] manifests[m]).len() <= 1 || manifests[m].len() * bytes_per_entry
                <= target_size_bytes || target_size_bytes == u64::MAX by {
                let count = manifests[m].len();
                assert(count <= n);
                if count > 1 {
                    let fewer = (count - 1) as nat;
                    lemma_roll_at_capacity(bytes_per_entry, target_size_bytes, fewer);
                    assert(fewer * bytes_per_entry > 0) by (nonlinear_arith)
                        requires
                            fewer > 0,
                            bytes_per_entry > 0,
                    ;
                }
            }
            assert forall|m: int| 0 <= m < manifests.len() - 1 implies {
                &&& ((#[trigger] manifests[m]).len() + 1) * bytes_per_entry > target_size_bytes
                &&& target_size_bytes < u64::MAX
            } by {
                lemma_roll_at_capacity(bytes_per_entry, target_size_bytes, manifests[m].len());
            }
        },
    }
}

/// A new manifest lists at least one entry, and any two of its entries have the
/// same partition values, field by field.
pub proof fn law_new_manifest_has_one_tuple(
    process: RewriteManifestsProcess,
    loaded: Seq<LoadedManifest>,
    m: int,
    i: int,
    j: int,
)
    requires
        0 <= m < process.planned(loaded).len(),
        0 <= i < process.planned(loaded)[m].len(),
        0 <= j < process.planned(loaded)[m].len(),
    ensures
        same_partition(process.planned(loaded)[m][i], process.planned(loaded)[m][j]),
{
    let entries = process.planned(loaded)[m];
    law_manifest_holds_one_partition(process, loaded, m);
    assert(all_of(entries, entries[0].partition_key()));
    assert(entries[i].partition_key() == entries[j].partition_key());
    lemma_same_partition(entries[i], entries[j]);
}

/// A new manifest holds a single entry, or its entries are no larger than the
/// target. Of two with the same partition values the first has no room for another
/// entry. A target that is the largest integer is never exceeded.
pub proof fn law_new_manifests_go_by_size(
    process: RewriteManifestsProcess,
    loaded: Seq<LoadedManifest>,
    m: int,
)
    requires
        0 <= m < process.planned(loaded).len(),
    ensures
        ({
            let planned = process.planned(loaded);
            &&& planned[m].len() > 0
            &&& planned[m].len() == 1 || planned[m].len() * process.bytes_per_entry
                <= process.target_size_bytes || process.target_size_bytes == u64::MAX
            &&& forall|k: int|
                m < k < planned.len() && same_partition(planned[m][0], (#[trigger] planned[k])[0])
                    ==> {
                    &&& (planned[m].len() + 1) * process.bytes_per_entry
                        > process.target_size_bytes
                    &&& process.target_size_bytes < u64::MAX
                }
        }),
{
    let planned = process.planned(loaded);
    law_manifest_holds_one_partition(process, loaded, m);
    law_manifest_fits_target(process, loaded, m);
    assert forall|k: int|
        m < k < planned.len() && same_partition(planned[m][0], (#[trigger] planned[k])[0]) implies {
        &&& (planned[m].len() + 1) * process.bytes_per_entry > process.target_size_bytes
        &&& process.target_size_bytes < u64::MAX
    } by {
        lemma_same_partition(planned[m][0], planned[k][0]);
        law_manifest_is_filled(process, loaded, m, k);
    }
}

/// The new manifests, read one after the other, list the groups of live entries one
/// after the other.
pub proof fn law_new_manifests_list_the_groups_in_order(
    process: RewriteManifestsProcess,
    loaded: Seq<LoadedManifest>,
)
    ensures
        process.planned(loaded).flatten() == grouped(all_live_entries(loaded)).flatten(),
{
    crate::rewrite_laws::law_rewrite_clusters_by_partition(process, loaded);
}

/// A planned manifest with a row id has an entry that stores it, and none that
/// stores a smaller one that is not negative. One without has no entry that stores
/// one that is not negative.
pub proof fn law_planned_row_id_is_the_smallest(planned: Seq<PlannedManifest>, p: int)
    requires
        row_ids_planned(planned),
        0 <= p < planned.len(),
    ensures
        ({
            let entries = planned[p].entries@;
            match planned[p].first_row_id {
                Some(smallest) => {
                    &&& exists|i: int|
                        0 <= i < entries.len() && (#[trigger] entries[i]).data_file.first_row_id
                            is Some && entries[i].data_file.first_row_id->0 as int == smallest
                    &&& forall|i: int|
                        0 <= i < entries.len() && (#[trigger] entries[i]).data_file.first_row_id
                            is Some && entries[i].data_file.first_row_id->0 >= 0 ==> smallest
                            <= entries[i].data_file.first_row_id->0
                },
                None => forall|i: int|
                    0 <= i < entries.len() && (#[trigger] entries[i]).data_file.first_row_id is Some
                        ==> entries[i].data_file.first_row_id->0 < 0,
            }
        }),
{
    let entries = planned[p].entries@;
    assert(is_smallest_row_id(entries, planned[p].first_row_id));
    if let Some(smallest) = planned[p].first_row_id {
        let i = choose|i: int|
            0 <= i < entries.len() && (#[trigger] entries[i]).data_file.first_row_id == Some(
                smallest as i64,
            ) && smallest <= i64::MAX;
        assert(entries[i].data_file.first_row_id->0 as int == smallest);
    }
}

} // verus!
