//! What holds of a rewrite as a whole.

use vstd::prelude::*;
use vstd::seq_lib::{lemma_flatten_concat, lemma_multiset_commutative};

use crate::commit::CommitFinishing;
use crate::commit_laws::{
    all_manifests_numbered, is_numbered, law_numbered_manifests_consume_no_row_ids, live_rows,
    rows_to_number,
};
use crate::grouping::{grouped, lemma_grouped_push, of_partition, partitions};
use crate::lineage::{
    all_live_entries, effective_row_id, entry_defect, first_defect, first_entry_defect, inherited_row_id, lifted,
    lifted_entries, unnumbered_rows, ExistingEntry, LoadedManifest,
};
use crate::manifest::{
    manifest_views, FormatVersion, ManifestContentType, ManifestEntry, ManifestFile,
    ManifestStatus,
};
use crate::partition::LiteralKey;
use crate::rewrite_manifests::{
    is_rewritable, loaded_views, nothing_to_do, planned_row_ids, rewrite_properties, to_keep,
    to_rewrite, total_size, ManifestRewrite, RewriteManifestsProcess, ENTRIES_PROCESSED,
    MANIFESTS_CREATED, MANIFESTS_KEPT, MANIFESTS_REPLACED,
};
use crate::rolling::{
    is_smallest_row_id, lemma_roll_at_capacity, manifest_capacity, pieces, planned_entries, rolled,
    rolled_groups, row_ids_planned, saturated_size, PlannedManifest,
};
use crate::table::number_property;
use crate::text::law_decimal_reads_back;

verus! {

proof fn lemma_pieces_flatten(entries: Seq<ExistingEntry>, n: nat)
    ensures
        pieces(entries, n).flatten() == entries,
    decreases entries.len(),
{
    broadcast use {Seq::lemma_flatten_push, Seq::lemma_flatten_singleton};

    if n == 0 || entries.len() <= n {
        assert(seq![entries].flatten() == entries);
    } else {
        let rest = entries.skip(n as int);
        lemma_pieces_flatten(rest, n);
        lemma_flatten_concat(seq![entries.take(n as int)], pieces(rest, n));
        assert(seq![entries.take(n as int)].flatten() == entries.take(n as int));
        assert(entries.take(n as int) + rest =~= entries);
    }
}

proof fn lemma_rolled_groups_flatten(groups: Seq<Seq<ExistingEntry>>, capacity: Option<nat>)
    ensures
        rolled_groups(groups, capacity).flatten() == groups.flatten(),
    decreases groups.len(),
{
    broadcast use {Seq::lemma_flatten_push, Seq::lemma_flatten_singleton};

    if groups.len() > 0 {
        let before = groups.drop_last();
        lemma_rolled_groups_flatten(before, capacity);
        match capacity {
            Some(n) => lemma_pieces_flatten(groups.last(), n),
            None => {
                assert(seq![groups.last()].flatten() == groups.last());
            },
        }
        lemma_flatten_concat(rolled_groups(before, capacity), rolled(groups.last(), capacity));
        assert(before.push(groups.last()) =~= groups);
        assert(groups.flatten() =~= before.flatten() + groups.last());
    }
}

proof fn lemma_flatten_update(groups: Seq<Seq<ExistingEntry>>, j: int, entry: ExistingEntry)
    requires
        0 <= j < groups.len(),
    ensures
        groups.update(j, groups[j].push(entry)).flatten().to_multiset()
            == groups.flatten().to_multiset().insert(entry),
    decreases groups.len(),
{
    broadcast use {
        Seq::lemma_flatten_push,
        Seq::lemma_flatten_singleton,
        vstd::seq_lib::group_to_multiset_ensures,
    };

    let more = groups.update(j, groups[j].push(entry));
    let before = groups.drop_last();
    assert(before.push(groups.last()) =~= groups);
    if j == groups.len() - 1 {
        assert(before.push(groups.last().push(entry)) =~= more);
        assert(more.flatten() =~= groups.flatten().push(entry));
        vstd::seq_lib::to_multiset_build(groups.flatten(), entry);
    } else {
        lemma_flatten_update(before, j, entry);
        let changed = before.update(j, before[j].push(entry));
        assert(changed.push(groups.last()) =~= more);
        assert(more.flatten() =~= changed.flatten() + groups.last());
        assert(groups.flatten() =~= before.flatten() + groups.last());
        lemma_multiset_commutative(changed.flatten(), groups.last());
        lemma_multiset_commutative(before.flatten(), groups.last());
        assert(more.flatten().to_multiset() =~= groups.flatten().to_multiset().insert(entry));
    }
}

proof fn lemma_grouped_multiset(entries: Seq<ExistingEntry>)
    ensures
        grouped(entries).flatten().to_multiset() == entries.to_multiset(),
    decreases entries.len(),
{
    broadcast use {
        Seq::lemma_flatten_push,
        Seq::lemma_flatten_singleton,
        vstd::seq_lib::group_to_multiset_ensures,
    };

    if entries.len() == 0 {
        assert(entries =~= Seq::empty());
        assert(grouped(entries) =~= Seq::empty());
    } else {
        let before = entries.drop_last();
        let entry = entries.last();
        lemma_grouped_multiset(before);
        lemma_grouped_push(before, entry);
        assert(before.push(entry) =~= entries);
        vstd::seq_lib::to_multiset_build(before, entry);
        let keys = partitions(before);
        if keys.contains(entry.partition_key()) {
            let j = choose|j: int| 0 <= j < keys.len() && keys[j] == entry.partition_key();
            lemma_flatten_update(grouped(before), j, entry);
        } else {
            assert(grouped(entries).flatten() =~= grouped(before).flatten() + seq![entry]);
            assert(grouped(before).flatten() + seq![entry] =~= grouped(before).flatten().push(
                entry,
            ));
            vstd::seq_lib::to_multiset_build(grouped(before).flatten(), entry);
        }
    }
}

/// A rewrite lists just the entries that were live before it: none is lost, none
/// is made up, and none is listed more often than before.
pub proof fn law_rewrite_keeps_entries(
    process: RewriteManifestsProcess,
    loaded: Seq<LoadedManifest>,
)
    ensures
        process.planned(loaded).flatten().to_multiset() == all_live_entries(loaded).to_multiset(),
        process.planned(loaded).flatten().len() == all_live_entries(loaded).len(),
{
    broadcast use vstd::seq_lib::group_to_multiset_ensures;

    let live = all_live_entries(loaded);
    lemma_rolled_groups_flatten(
        grouped(live),
        manifest_capacity(process.bytes_per_entry, process.target_size_bytes),
    );
    lemma_grouped_multiset(live);
    live.to_multiset_ensures();
    process.planned(loaded).flatten().to_multiset_ensures();
}

/// A rewrite clusters entries by partition: read one after the other, its
/// manifests list the entries of one partition after those of another, the
/// partitions in the order in which they first occurred, and the entries of a
/// partition in the order in which they were read.
pub proof fn law_rewrite_clusters_by_partition(
    process: RewriteManifestsProcess,
    loaded: Seq<LoadedManifest>,
)
    ensures
        process.planned(loaded).flatten() == partitions(all_live_entries(loaded)).map_values(
            |key: Seq<Option<LiteralKey>>| of_partition(all_live_entries(loaded), key),
        ).flatten(),
{
    lemma_rolled_groups_flatten(
        grouped(all_live_entries(loaded)),
        manifest_capacity(process.bytes_per_entry, process.target_size_bytes),
    );
}

/// Whether all the entries are of one partition.
pub open spec fn all_of(entries: Seq<ExistingEntry>, key: Seq<Option<LiteralKey>>) -> bool {
    forall|i: int| 0 <= i < entries.len() ==> (#[trigger] entries[i]).partition_key() == key
}

/// Whether the groups are of these partitions, all different, and none is empty.
spec fn groups_of(
    groups: Seq<Seq<ExistingEntry>>,
    keys: Seq<Seq<Option<LiteralKey>>>,
) -> bool {
    &&& groups.len() == keys.len()
    &&& keys.no_duplicates()
    &&& forall|j: int| 0 <= j < groups.len() ==> (#[trigger] groups[j]).len() > 0
    &&& forall|j: int| 0 <= j < groups.len() ==> all_of(#[trigger] groups[j], keys[j])
}

proof fn lemma_grouped_by_keys(entries: Seq<ExistingEntry>)
    ensures
        groups_of(grouped(entries), partitions(entries)),
    decreases entries.len(),
{
    broadcast use vstd::seq_lib::group_filter_ensures;

    let keys = partitions(entries);
    let groups = grouped(entries);
    if entries.len() > 0 {
        lemma_grouped_push(entries, entries.last());
    }
    assert forall|j: int| 0 <= j < groups.len() implies all_of(#[trigger] groups[j], keys[j]) by {
        assert(groups[j] == of_partition(entries, keys[j]));
    }
}

proof fn lemma_pieces_shape(entries: Seq<ExistingEntry>, n: nat, m: int)
    requires
        n > 0,
        entries.len() > 0,
        0 <= m < pieces(entries, n).len(),
    ensures
        0 < pieces(entries, n)[m].len() <= n,
        m < pieces(entries, n).len() - 1 ==> pieces(entries, n)[m].len() == n,
        forall|key: Seq<Option<LiteralKey>>|
            all_of(entries, key) ==> #[trigger] all_of(pieces(entries, n)[m], key),
    decreases entries.len(),
{
    if entries.len() > n {
        let rest = entries.skip(n as int);
        assert forall|key: Seq<Option<LiteralKey>>| #[trigger] all_of(entries, key) implies all_of(
            rest,
            key,
        ) by {
            assert forall|i: int| 0 <= i < rest.len() implies (#[trigger] rest[i]).partition_key()
                == key by {
                assert(entries[i + n].partition_key() == key);
            }
        }
        if m > 0 {
            lemma_pieces_shape(rest, n, m - 1);
            assert(pieces(entries, n)[m] == pieces(rest, n)[m - 1]);
        } else {
            assert(pieces(entries, n)[0] == entries.take(n as int));
        }
    }
}

/// What holds of one manifest of rolled groups: which group it is of, and how full
/// it is.
proof fn lemma_rolled_shape(
    groups: Seq<Seq<ExistingEntry>>,
    keys: Seq<Seq<Option<LiteralKey>>>,
    capacity: Option<nat>,
    m: int,
) -> (j: int)
    requires
        groups_of(groups, keys),
        capacity matches Some(n) ==> n > 0,
        0 <= m < rolled_groups(groups, capacity).len(),
    ensures
        0 <= j < keys.len(),
        rolled_groups(groups, capacity)[m].len() > 0,
        all_of(rolled_groups(groups, capacity)[m], keys[j]),
        capacity matches Some(n) ==> rolled_groups(groups, capacity)[m].len() <= n,
        forall|k: int|
            m < k < rolled_groups(groups, capacity).len() && all_of(
                #[trigger] rolled_groups(groups, capacity)[k],
                keys[j],
            ) ==> capacity == Some(rolled_groups(groups, capacity)[m].len()),
    decreases groups.len(),
{
    let all = rolled_groups(groups, capacity);
    let before = groups.drop_last();
    let first = rolled_groups(before, capacity);
    let second = rolled(groups.last(), capacity);
    let last_key = keys.last();
    assert(groups_of(before, keys.drop_last())) by {
        assert forall|i: int| 0 <= i < before.len() implies (#[trigger] before[i]).len() > 0
            && all_of(before[i], keys.drop_last()[i]) by {
            assert(groups[i].len() > 0);
            assert(all_of(groups[i], keys[i]));
        }
    }
    assert(groups[groups.len() - 1].len() > 0);
    assert(all_of(groups[groups.len() - 1], last_key));
    assert forall|k: int| 0 <= k < second.len() implies (#[trigger] second[k]).len() > 0
        && all_of(second[k], last_key) && (capacity matches Some(n) ==> second[k].len() <= n && (k
        < second.len() - 1 ==> second[k].len() == n)) by {
        if let Some(n) = capacity {
            lemma_pieces_shape(groups.last(), n, k);
        }
    }
    if m < first.len() {
        let j = lemma_rolled_shape(before, keys.drop_last(), capacity, m);
        assert(keys.drop_last()[j] == keys[j]);
        assert forall|k: int|
            m < k < all.len() && all_of(#[trigger] all[k], keys[j]) implies capacity == Some(
            all[m].len(),
        ) by {
            if k < first.len() {
                assert(all_of(first[k], keys[j]));
            } else {
                let s = second[k - first.len()];
                assert(s.len() > 0);
                assert(s[0].partition_key() == keys[j]);
                assert(s[0].partition_key() == last_key);
                assert(keys[j] != last_key);
            }
        }
        j
    } else {
        let j = keys.len() - 1;
        assert(all[m] == second[m - first.len()]);
        j as int
    }
}

/// Each manifest of a rewrite holds entries of a single partition, and at least
/// one.
pub proof fn law_manifest_holds_one_partition(
    process: RewriteManifestsProcess,
    loaded: Seq<LoadedManifest>,
    m: int,
)
    requires
        0 <= m < process.planned(loaded).len(),
    ensures
        process.planned(loaded)[m].len() > 0,
        all_of(process.planned(loaded)[m], process.planned(loaded)[m][0].partition_key()),
{
    let live = all_live_entries(loaded);
    lemma_grouped_by_keys(live);
    lemma_roll_at_capacity(process.bytes_per_entry, process.target_size_bytes, 0);
    let j = lemma_rolled_shape(
        grouped(live),
        partitions(live),
        manifest_capacity(process.bytes_per_entry, process.target_size_bytes),
        m,
    );
    assert(process.planned(loaded)[m][0].partition_key() == partitions(live)[j]);
}

/// No manifest of a rewrite is planned larger than the target, unless a single
/// entry already is.
pub proof fn law_manifest_fits_target(
    process: RewriteManifestsProcess,
    loaded: Seq<LoadedManifest>,
    m: int,
)
    requires
        0 <= m < process.planned(loaded).len(),
    ensures
        process.planned(loaded)[m].len() == 1 || saturated_size(
            process.bytes_per_entry,
            process.planned(loaded)[m].len(),
        ) <= process.target_size_bytes,
{
    let live = all_live_entries(loaded);
    let count = process.planned(loaded)[m].len();
    lemma_grouped_by_keys(live);
    lemma_roll_at_capacity(process.bytes_per_entry, process.target_size_bytes, 0);
    lemma_rolled_shape(
        grouped(live),
        partitions(live),
        manifest_capacity(process.bytes_per_entry, process.target_size_bytes),
        m,
    );
    let fewer = (count - 1) as nat;
    lemma_roll_at_capacity(process.bytes_per_entry, process.target_size_bytes, fewer);
    if count > 1 && process.bytes_per_entry > 0 {
        assert(fewer * process.bytes_per_entry > 0) by (nonlinear_arith)
            requires
                fewer > 0,
                process.bytes_per_entry > 0,
        ;
    } else if process.bytes_per_entry == 0 {
        assert(count * process.bytes_per_entry == 0) by (nonlinear_arith)
            requires
                process.bytes_per_entry == 0,
        ;
    }
}

/// No more manifests are written than the target asks for: of two manifests of one
/// partition, the first has no room for another entry.
pub proof fn law_manifest_is_filled(
    process: RewriteManifestsProcess,
    loaded: Seq<LoadedManifest>,
    m: int,
    k: int,
)
    requires
        0 <= m < k < process.planned(loaded).len(),
        process.planned(loaded)[m][0].partition_key() == process.planned(
            loaded,
        )[k][0].partition_key(),
    ensures
        saturated_size(process.bytes_per_entry, process.planned(loaded)[m].len() + 1)
            > process.target_size_bytes,
{
    let live = all_live_entries(loaded);
    let keys = partitions(live);
    let capacity = manifest_capacity(process.bytes_per_entry, process.target_size_bytes);
    let count = process.planned(loaded)[m].len();
    lemma_grouped_by_keys(live);
    lemma_roll_at_capacity(process.bytes_per_entry, process.target_size_bytes, 0);
    lemma_roll_at_capacity(process.bytes_per_entry, process.target_size_bytes, count);
    let j = lemma_rolled_shape(grouped(live), keys, capacity, m);
    let i = lemma_rolled_shape(grouped(live), keys, capacity, k);
    assert(process.planned(loaded)[m][0].partition_key() == keys[j]);
    assert(process.planned(loaded)[k][0].partition_key() == keys[i]);
}

proof fn lemma_rolled_unsplit(groups: Seq<Seq<ExistingEntry>>, capacity: Option<nat>)
    requires
        capacity matches Some(n) ==> forall|j: int|
            0 <= j < groups.len() ==> (#[trigger] groups[j]).len() <= n,
    ensures
        rolled_groups(groups, capacity) == groups,
    decreases groups.len(),
{
    if groups.len() > 0 {
        let before = groups.drop_last();
        assert forall|j: int| 0 <= j < before.len() && capacity is Some implies (
        #[trigger] before[j]).len() <= capacity->0 by {
            assert(groups[j].len() <= capacity->0);
        }
        lemma_rolled_unsplit(before, capacity);
        assert(groups[groups.len() - 1] == groups.last());
        assert(before + seq![groups.last()] =~= groups);
    }
}

/// Where the entries of every partition fit the target, a rewrite consolidates each
/// partition into a single manifest.
pub proof fn law_fitting_partitions_are_consolidated(
    process: RewriteManifestsProcess,
    loaded: Seq<LoadedManifest>,
)
    requires
        forall|j: int|
            0 <= j < grouped(all_live_entries(loaded)).len() ==> saturated_size(
                process.bytes_per_entry,
                (#[trigger] grouped(all_live_entries(loaded))[j]).len(),
            ) <= process.target_size_bytes,
    ensures
        process.planned(loaded) == grouped(all_live_entries(loaded)),
        process.planned(loaded).len() == partitions(all_live_entries(loaded)).len(),
{
    let groups = grouped(all_live_entries(loaded));
    let capacity = manifest_capacity(process.bytes_per_entry, process.target_size_bytes);
    if let Some(n) = capacity {
        assert forall|j: int| 0 <= j < groups.len() implies (#[trigger] groups[j]).len() <= n by {
            let count = groups[j].len();
            if count > 1 {
                let fewer = (count - 1) as nat;
                lemma_roll_at_capacity(process.bytes_per_entry, process.target_size_bytes, fewer);
                assert(fewer * process.bytes_per_entry > 0) by (nonlinear_arith)
                    requires
                        fewer > 0,
                        process.bytes_per_entry > 0,
                ;
            } else {
                lemma_roll_at_capacity(process.bytes_per_entry, process.target_size_bytes, 0);
            }
        }
    }
    lemma_rolled_unsplit(groups, capacity);
}

proof fn lemma_lifted_contains(
    first_row_id: Option<u64>,
    entries: Seq<ManifestEntry>,
    n: int,
    e: ExistingEntry,
)
    requires
        0 <= n <= entries.len(),
    ensures
        lifted_entries(first_row_id, entries, n).contains(e) <==> exists|i: int|
            0 <= i < n && (#[trigger] entries[i]).alive() && e == lifted(first_row_id, entries, i),
    decreases n,
{
    if n > 0 {
        lemma_lifted_contains(first_row_id, entries, n - 1, e);
        let before = lifted_entries(first_row_id, entries, n - 1);
        let after = lifted_entries(first_row_id, entries, n);
        if entries[n - 1].alive() {
            assert(after.last() == lifted(first_row_id, entries, n - 1));
            if before.contains(e) {
                let k = choose|k: int| 0 <= k < before.len() && before[k] == e;
                assert(after[k] == e);
            }
            if after.contains(e) && e != lifted(first_row_id, entries, n - 1) {
                let k = choose|k: int| 0 <= k < after.len() && after[k] == e;
                assert(before[k] == e);
            }
        }
    }
}

proof fn lemma_all_live_contains(loaded: Seq<LoadedManifest>, e: ExistingEntry)
    ensures
        all_live_entries(loaded).contains(e) <==> exists|m: int|
            0 <= m < loaded.len() && (#[trigger] loaded[m]).live_entries().contains(e),
    decreases loaded.len(),
{
    if loaded.len() > 0 {
        let before = loaded.drop_last();
        let first = all_live_entries(before);
        let second = loaded.last().live_entries();
        let all = all_live_entries(loaded);
        lemma_all_live_contains(before, e);
        if all.contains(e) {
            let k = choose|k: int| 0 <= k < all.len() && all[k] == e;
            if k < first.len() {
                assert(first[k] == e);
                let m = choose|m: int|
                    0 <= m < before.len() && (#[trigger] before[m]).live_entries().contains(e);
                assert(loaded[m].live_entries().contains(e));
            } else {
                assert(second[k - first.len()] == e);
                assert(loaded[loaded.len() - 1].live_entries().contains(e));
            }
        }
        if exists|m: int|
            0 <= m < loaded.len() && (#[trigger] loaded[m]).live_entries().contains(e) {
            let m = choose|m: int|
                0 <= m < loaded.len() && (#[trigger] loaded[m]).live_entries().contains(e);
            if m < before.len() {
                assert(before[m].live_entries().contains(e));
                let k = choose|k: int| 0 <= k < first.len() && first[k] == e;
                assert(all[k] == e);
            } else {
                let k = choose|k: int| 0 <= k < second.len() && second[k] == e;
                assert(all[first.len() + k] == e);
            }
        }
    }
}

proof fn lemma_flatten_contains(lists: Seq<Seq<ExistingEntry>>, e: ExistingEntry)
    ensures
        lists.flatten().contains(e) <==> exists|m: int|
            0 <= m < lists.len() && (#[trigger] lists[m]).contains(e),
    decreases lists.len(),
{
    broadcast use Seq::lemma_flatten_push;

    if lists.len() > 0 {
        let before = lists.drop_last();
        let first = before.flatten();
        let second = lists.last();
        let all = lists.flatten();
        lemma_flatten_contains(before, e);
        assert(before.push(second) =~= lists);
        assert(all =~= first + second);
        if all.contains(e) {
            let k = choose|k: int| 0 <= k < all.len() && all[k] == e;
            if k < first.len() {
                assert(first[k] == e);
                let m = choose|m: int| 0 <= m < before.len() && (#[trigger] before[m]).contains(e);
                assert(lists[m].contains(e));
            } else {
                assert(second[k - first.len()] == e);
                assert(lists[lists.len() - 1].contains(e));
            }
        }
        if exists|m: int| 0 <= m < lists.len() && (#[trigger] lists[m]).contains(e) {
            let m = choose|m: int| 0 <= m < lists.len() && (#[trigger] lists[m]).contains(e);
            if m < before.len() {
                assert(before[m].contains(e));
                let k = choose|k: int| 0 <= k < first.len() && first[k] == e;
                assert(all[k] == e);
            } else {
                let k = choose|k: int| 0 <= k < second.len() && second[k] == e;
                assert(all[first.len() + k] == e);
            }
        }
    }
}

proof fn lemma_planned_contains(
    process: RewriteManifestsProcess,
    loaded: Seq<LoadedManifest>,
    e: ExistingEntry,
)
    ensures
        all_live_entries(loaded).contains(e) <==> exists|m: int|
            0 <= m < process.planned(loaded).len() && (#[trigger] process.planned(
                loaded,
            )[m]).contains(e),
{
    broadcast use vstd::seq_lib::group_to_multiset_ensures;

    law_rewrite_keeps_entries(process, loaded);
    lemma_flatten_contains(process.planned(loaded), e);
    let live = all_live_entries(loaded);
    let flat = process.planned(loaded).flatten();
    assert(live.contains(e) <==> live.to_multiset().count(e) > 0);
    assert(flat.contains(e) <==> flat.to_multiset().count(e) > 0);
}

/// Every live entry is in one of the rewritten manifests, with its file, its
/// snapshot id and its sequence numbers as they were, and its row id written out.
pub proof fn law_live_entry_is_rewritten(
    process: RewriteManifestsProcess,
    loaded: Seq<LoadedManifest>,
    m: int,
    i: int,
) -> (place: (int, int))
    requires
        0 <= m < loaded.len(),
        0 <= i < loaded[m].entries@.len(),
        loaded[m].entries@[i].alive(),
        first_defect(loaded) is None,
    ensures
        ({
            let before = loaded[m].entries@[i];
            let after = process.planned(loaded)[place.0][place.1];
            &&& 0 <= place.0 < process.planned(loaded).len()
            &&& 0 <= place.1 < process.planned(loaded)[place.0].len()
            &&& Some(after.snapshot_id) == before.snapshot_id
            &&& Some(after.sequence_number) == before.sequence_number
            &&& after.file_sequence_number == before.file_sequence_number
            &&& after.data_file.first_row_id == effective_row_id(
                loaded[m].manifest_file.first_row_id,
                loaded[m].entries@,
                i,
            )
            &&& after.data_file.content == before.data_file.content
            &&& after.data_file.file_path == before.data_file.file_path
            &&& after.data_file.partition == before.data_file.partition
            &&& after.data_file.partition_spec_id == before.data_file.partition_spec_id
            &&& after.data_file.record_count == before.data_file.record_count
            &&& after.data_file.file_size_in_bytes == before.data_file.file_size_in_bytes
            &&& after.data_file.details == before.data_file.details
        }),
{
    let base = loaded[m].manifest_file.first_row_id;
    let entries = loaded[m].entries@;
    let e = lifted(base, entries, i);
    lemma_no_entry_defect(loaded, m, i);
    lemma_lifted_contains(base, entries, entries.len() as int, e);
    lemma_all_live_contains(loaded, e);
    assert(loaded[m].live_entries().contains(e));
    lemma_planned_contains(process, loaded, e);
    let p = choose|p: int|
        0 <= p < process.planned(loaded).len() && (#[trigger] process.planned(
            loaded,
        )[p]).contains(e);
    let k = choose|k: int|
        0 <= k < process.planned(loaded)[p].len() && process.planned(loaded)[p][k] == e;
    (p, k)
}

proof fn lemma_no_entry_defect(loaded: Seq<LoadedManifest>, m: int, i: int)
    requires
        0 <= m < loaded.len(),
        0 <= i < loaded[m].entries@.len(),
        first_defect(loaded) is None,
    ensures
        entry_defect(
            loaded[m].manifest_file.first_row_id,
            loaded[m].entries@,
            i,
        ) is None,
    decreases loaded.len(),
{
    if m < loaded.len() - 1 {
        lemma_no_entry_defect(loaded.drop_last(), m, i);
    } else {
        lemma_no_entry_defect_within(
            loaded[m].manifest_file.first_row_id,
            loaded[m].entries@,
            loaded[m].entries@.len() as int,
            i,
        );
    }
}

proof fn lemma_no_entry_defect_within(
    first_row_id: Option<u64>,
    entries: Seq<ManifestEntry>,
    n: int,
    i: int,
)
    requires
        0 <= i < n <= entries.len(),
        first_entry_defect(first_row_id, entries, n) is None,
    ensures
        entry_defect(first_row_id, entries, i) is None,
    decreases n,
{
    if i < n - 1 {
        lemma_no_entry_defect_within(first_row_id, entries, n - 1, i);
    }
}

/// Every entry of a rewritten manifest was a live entry before.
pub proof fn law_rewritten_entry_was_live(
    process: RewriteManifestsProcess,
    loaded: Seq<LoadedManifest>,
    p: int,
    k: int,
) -> (place: (int, int))
    requires
        0 <= p < process.planned(loaded).len(),
        0 <= k < process.planned(loaded)[p].len(),
    ensures
        0 <= place.0 < loaded.len(),
        0 <= place.1 < loaded[place.0].entries@.len(),
        loaded[place.0].entries@[place.1].alive(),
        process.planned(loaded)[p][k] == lifted(
            loaded[place.0].manifest_file.first_row_id,
            loaded[place.0].entries@,
            place.1,
        ),
{
    let e = process.planned(loaded)[p][k];
    assert(process.planned(loaded)[p].contains(e));
    lemma_planned_contains(process, loaded, e);
    lemma_all_live_contains(loaded, e);
    let m = choose|m: int|
        0 <= m < loaded.len() && (#[trigger] loaded[m]).live_entries().contains(e);
    let base = loaded[m].manifest_file.first_row_id;
    let entries = loaded[m].entries@;
    lemma_lifted_contains(base, entries, entries.len() as int, e);
    let i = choose|i: int|
        0 <= i < entries.len() && (#[trigger] entries[i]).alive() && e == lifted(base, entries, i);
    (m, i)
}

proof fn lemma_all_live_without(loaded: Seq<LoadedManifest>, i: int)
    requires
        0 <= i < loaded.len(),
    ensures
        all_live_entries(loaded).to_multiset() == all_live_entries(
            loaded.remove(i),
        ).to_multiset().add(loaded[i].live_entries().to_multiset()),
        first_defect(loaded) is None <==> first_defect(loaded.remove(i)) is None
            && loaded[i].defect() is None,
    decreases loaded.len(),
{
    let before = loaded.drop_last();
    let last = loaded.last();
    lemma_multiset_commutative(all_live_entries(before), last.live_entries());
    if i == loaded.len() - 1 {
        assert(loaded.remove(i) =~= before);
    } else {
        lemma_all_live_without(before, i);
        let rest = loaded.remove(i);
        assert(rest.drop_last() =~= before.remove(i));
        assert(rest.last() == last);
        lemma_multiset_commutative(all_live_entries(before.remove(i)), last.live_entries());
        assert(all_live_entries(loaded).to_multiset() =~= all_live_entries(rest).to_multiset().add(
            loaded[i].live_entries().to_multiset(),
        ));
    }
}

proof fn lemma_load_order(loaded: Seq<LoadedManifest>, reordered: Seq<LoadedManifest>)
    requires
        loaded.to_multiset() == reordered.to_multiset(),
    ensures
        all_live_entries(loaded).to_multiset() == all_live_entries(reordered).to_multiset(),
        first_defect(loaded) is None <==> first_defect(reordered) is None,
    decreases loaded.len(),
{
    broadcast use vstd::seq_lib::group_to_multiset_ensures;

    loaded.to_multiset_ensures();
    reordered.to_multiset_ensures();
    if loaded.len() == 0 {
        assert(reordered =~= loaded);
    } else {
        let n = loaded.len() - 1;
        let last = loaded[n];
        assert(loaded.to_multiset().count(last) > 0);
        assert(reordered.contains(last));
        let i = choose|i: int| 0 <= i < reordered.len() && reordered[i] == last;
        vstd::seq_lib::to_multiset_remove(loaded, n);
        vstd::seq_lib::to_multiset_remove(reordered, i);
        lemma_load_order(loaded.remove(n), reordered.remove(i));
        lemma_all_live_without(loaded, n);
        lemma_all_live_without(reordered, i);
    }
}

/// The order in which manifests happen to be read does not matter to what a
/// rewrite lists, nor to whether it succeeds.
pub proof fn law_load_order_does_not_matter(
    process: RewriteManifestsProcess,
    loaded: Seq<LoadedManifest>,
    reordered: Seq<LoadedManifest>,
)
    requires
        loaded.to_multiset() == reordered.to_multiset(),
    ensures
        process.planned(loaded).flatten().to_multiset() == process.planned(
            reordered,
        ).flatten().to_multiset(),
        first_defect(loaded) is None <==> first_defect(reordered) is None,
{
    law_rewrite_keeps_entries(process, loaded);
    law_rewrite_keeps_entries(process, reordered);
    lemma_load_order(loaded, reordered);
}

/// The entry that lists a rewritten file in its new manifest.
pub open spec fn relisted(entry: ExistingEntry) -> ManifestEntry {
    ManifestEntry {
        status: ManifestStatus::Existing,
        snapshot_id: Some(entry.snapshot_id),
        sequence_number: Some(entry.sequence_number),
        file_sequence_number: entry.file_sequence_number,
        data_file: entry.data_file,
    }
}

/// The entries of a new manifest.
pub open spec fn relisted_entries(entries: Seq<ExistingEntry>) -> Seq<ManifestEntry> {
    entries.map_values(|e: ExistingEntry| relisted(e))
}

/// Whether each entry stores its row id.
pub open spec fn all_numbered(entries: Seq<ExistingEntry>) -> bool {
    forall|i: int| 0 <= i < entries.len() ==> (#[trigger] entries[i]).data_file.first_row_id is Some
}

proof fn lemma_relisted_reads_back(first_row_id: Option<u64>, entries: Seq<ExistingEntry>, n: int)
    requires
        first_row_id is None || all_numbered(entries),
        0 <= n <= entries.len(),
    ensures
        lifted_entries(first_row_id, relisted_entries(entries), n) == entries.take(n),
        first_row_id is Some ==> unnumbered_rows(relisted_entries(entries), n) == 0,
        first_entry_defect(first_row_id, relisted_entries(entries), n) is None,
    decreases n,
{
    let listed = relisted_entries(entries);
    if n > 0 {
        lemma_relisted_reads_back(first_row_id, entries, n - 1);
        assert(listed[n - 1] == relisted(entries[n - 1]));
        if first_row_id is Some {
            assert(entries[n - 1].data_file.first_row_id is Some);
        }
        assert(lifted(first_row_id, listed, n - 1) == entries[n - 1]);
        assert(entries.take(n) =~= entries.take(n - 1).push(entries[n - 1]));
    } else {
        assert(entries.take(0) =~= Seq::empty());
    }
}

/// Whether the manifest lists these entries, and would not lend any of them a row
/// id that it had not: it has none itself, or all the entries have theirs.
pub open spec fn lists(manifest: LoadedManifest, entries: Seq<ExistingEntry>) -> bool {
    &&& manifest.entries@ == relisted_entries(entries)
    &&& manifest.manifest_file.first_row_id is None || all_numbered(entries)
}

/// A rewritten manifest reads back as it was planned: the same files, with the
/// same snapshot ids, sequence numbers and row ids. This leaves out a manifest
/// that has a row id of its own and yet an entry without one, which would inherit
/// it.
pub proof fn law_rewritten_manifest_reads_back(
    manifest: LoadedManifest,
    entries: Seq<ExistingEntry>,
)
    requires
        lists(manifest, entries),
    ensures
        manifest.live_entries() == entries,
        manifest.defect() is None,
{
    lemma_relisted_reads_back(manifest.manifest_file.first_row_id, entries, entries.len() as int);
    assert(entries.take(entries.len() as int) =~= entries);
}

proof fn lemma_rewritten_live_entries(
    rewritten: Seq<LoadedManifest>,
    planned: Seq<Seq<ExistingEntry>>,
)
    requires
        rewritten.len() == planned.len(),
        forall|p: int| 0 <= p < planned.len() ==> lists(#[trigger] rewritten[p], planned[p]),
    ensures
        all_live_entries(rewritten) == planned.flatten(),
        first_defect(rewritten) is None,
    decreases planned.len(),
{
    broadcast use Seq::lemma_flatten_push;

    if planned.len() > 0 {
        let n = planned.len() - 1;
        assert(lists(rewritten[n], planned[n]));
        assert forall|p: int| 0 <= p < n implies lists(
            #[trigger] rewritten.drop_last()[p],
            planned.drop_last()[p],
        ) by {
            assert(lists(rewritten[p], planned[p]));
        }
        lemma_rewritten_live_entries(rewritten.drop_last(), planned.drop_last());
        law_rewritten_manifest_reads_back(rewritten[n], planned[n]);
        assert(planned.drop_last().push(planned[n]) =~= planned);
    }
}

/// A table reads the same after a rewrite as before it: the same live entries, each
/// as often, with their snapshot ids, sequence numbers and row ids. This leaves out
/// a rewrite that puts entries without a row id into a manifest that has one.
pub proof fn law_table_reads_the_same(
    process: RewriteManifestsProcess,
    loaded: Seq<LoadedManifest>,
    rewritten: Seq<LoadedManifest>,
)
    requires
        rewritten.len() == process.planned(loaded).len(),
        forall|p: int|
            0 <= p < rewritten.len() ==> lists(
                #[trigger] rewritten[p],
                process.planned(loaded)[p],
            ),
    ensures
        all_live_entries(rewritten).to_multiset() == all_live_entries(loaded).to_multiset(),
        first_defect(rewritten) is None,
{
    lemma_rewritten_live_entries(rewritten, process.planned(loaded));
    law_rewrite_keeps_entries(process, loaded);
}

/// Where every manifest has a row id of its own, every rewritten entry stores the
/// row id that it had: the one that was stored, or else the one that was
/// inherited.
pub proof fn law_row_ids_are_written_out(
    process: RewriteManifestsProcess,
    loaded: Seq<LoadedManifest>,
    p: int,
)
    requires
        0 <= p < process.planned(loaded).len(),
        forall|m: int|
            0 <= m < loaded.len() ==> (#[trigger] loaded[m]).manifest_file.first_row_id is Some,
    ensures
        all_numbered(process.planned(loaded)[p]),
{
    let entries = process.planned(loaded)[p];
    assert forall|k: int| 0 <= k < entries.len() implies (
    #[trigger] entries[k]).data_file.first_row_id is Some by {
        let (m, i) = law_rewritten_entry_was_live(process, loaded, p, k);
        assert(loaded[m].manifest_file.first_row_id is Some);
    }
}

/// Whether the row ids of the manifest are within the range of those that a table
/// assigns.
pub open spec fn row_ids_in_range(manifest: LoadedManifest) -> bool {
    &&& manifest.manifest_file.first_row_id matches Some(base) && base <= i64::MAX
    &&& forall|i: int|
        0 <= i < manifest.entries@.len() ==> {
            let file = (#[trigger] manifest.entries@[i]).data_file;
            &&& file.record_count <= i64::MAX
            &&& file.first_row_id matches Some(own) ==> own >= 0
        }
}

proof fn lemma_unnumbered_rows_not_negative(manifest: LoadedManifest, n: int)
    requires
        row_ids_in_range(manifest),
        0 <= n <= manifest.entries@.len(),
    ensures
        unnumbered_rows(manifest.entries@, n) >= 0,
    decreases n,
{
    if n > 0 {
        lemma_unnumbered_rows_not_negative(manifest, n - 1);
        assert(manifest.entries@[n - 1].data_file.record_count <= i64::MAX);
    }
}

/// Whether one of the entries stores a row id that is not negative.
pub open spec fn has_row_id(entries: Seq<ExistingEntry>) -> bool {
    exists|i: int|
        0 <= i < entries.len() && ((#[trigger] entries[i]).data_file.first_row_id matches Some(own)
            && own >= 0)
}

/// A new manifest has a row id just when one of its entries stores one that is not
/// negative, and then it is the smallest of them.
pub proof fn law_manifest_has_row_id_if_an_entry_has(planned: Seq<PlannedManifest>, p: int)
    requires
        row_ids_planned(planned),
        0 <= p < planned.len(),
    ensures
        planned[p].first_row_id is Some <==> has_row_id(planned[p].entries@),
        is_smallest_row_id(planned[p].entries@, planned[p].first_row_id),
{
    let entries = planned[p].entries@;
    if let Some(smallest) = planned[p].first_row_id {
        let i = choose|i: int|
            0 <= i < entries.len() && (#[trigger] entries[i]).data_file.first_row_id == Some(
                smallest as i64,
            ) && smallest <= i64::MAX;
        assert(entries[i].data_file.first_row_id->0 >= 0);
    }
}

/// Where the row ids of the manifests that are rewritten are within the range of
/// those that a table assigns, every new manifest has entries with a row id.
pub proof fn law_assigned_row_ids_reach_every_manifest(
    process: RewriteManifestsProcess,
    loaded: Seq<LoadedManifest>,
    p: int,
)
    requires
        first_defect(loaded) is None,
        0 <= p < process.planned(loaded).len(),
        forall|m: int| 0 <= m < loaded.len() ==> row_ids_in_range(#[trigger] loaded[m]),
    ensures
        has_row_id(process.planned(loaded)[p]),
{
    law_manifest_holds_one_partition(process, loaded, p);
    let (m, i) = law_rewritten_entry_was_live(process, loaded, p, 0);
    let manifest = loaded[m];
    let base = manifest.manifest_file.first_row_id;
    assert(row_ids_in_range(manifest));
    lemma_unnumbered_rows_not_negative(manifest, i);
    lemma_unnumbered_rows_not_negative(manifest, i + 1);
    lemma_no_entry_defect(loaded, m, i);
    assert(manifest.entries@[i].data_file.record_count <= i64::MAX);
    let entry = process.planned(loaded)[p][0];
    assert(entry.data_file.first_row_id is Some);
    assert(entry.data_file.first_row_id->0 >= 0) by {
        if manifest.entries@[i].data_file.first_row_id is None {
            assert(inherited_row_id(base, manifest.entries@, i + 1) == Some(
                inherited_row_id(base, manifest.entries@, i)->0
                    + manifest.entries@[i].data_file.record_count,
            ));
        }
    }
}

proof fn lemma_all_live_concat(a: Seq<LoadedManifest>, b: Seq<LoadedManifest>)
    ensures
        all_live_entries(a + b) == all_live_entries(a) + all_live_entries(b),
    decreases b.len(),
{
    if b.len() == 0 {
        assert(a + b =~= a);
    } else {
        lemma_all_live_concat(a, b.drop_last());
        assert((a + b).drop_last() =~= a + b.drop_last());
        assert(all_live_entries(a + b) =~= all_live_entries(a) + all_live_entries(b));
    }
}

proof fn lemma_written_row_ids(begun: ManifestRewrite, done: ManifestRewrite)
    requires
        begun.awaited() is None,
        begun.written().len() == 0,
        done.completes(begun),
    ensures
        done.written().len() == begun.pending().len(),
        done.version() == FormatVersion::V3 ==> forall|p: int|
            0 <= p < done.written().len() ==> (#[trigger] done.written()[p]).first_row_id
                == begun.pending()[p].first_row_id,
{
    assert(done.row_ids() =~= done.written().map_values(|m: ManifestFile| m.first_row_id));
    assert(begun.row_ids() =~= planned_row_ids(begun.pending()));
    if done.version() == FormatVersion::V3 {
        assert forall|p: int| 0 <= p < done.written().len() implies (
        #[trigger] done.written()[p]).first_row_id == begun.pending()[p].first_row_id by {
            assert(done.row_ids()[p] == done.written()[p].first_row_id);
            assert(begun.row_ids()[p] == begun.pending()[p].first_row_id);
        }
    }
}

/// A rewrite changes no row's lineage. Let the rewrite be carried through, each new
/// manifest listing the entries that it was handed out with. Then the table reads
/// the same as before: the same live entries, each as often, with their row ids and
/// sequence numbers. And in the third format version a new manifest has a row id
/// just when one of its entries has one that is not negative, and then it is the
/// smallest of them.
///
/// This is so where every manifest that is rewritten has a row id. It is also so
/// where some have none, as long as no new manifest that has a row id lists an
/// entry without one, which would inherit it.
///
/// `before` are all the manifests of the table, and `kept` those that the rewrite
/// leaves as they are.
pub proof fn law_rewrite_keeps_lineage(
    process: RewriteManifestsProcess,
    version: FormatVersion,
    loaded: Seq<LoadedManifest>,
    begun: ManifestRewrite,
    done: ManifestRewrite,
    before: Seq<LoadedManifest>,
    kept: Seq<LoadedManifest>,
    rewritten: Seq<LoadedManifest>,
)
    requires
        process.begins(version, loaded, begun),
        done.completes(begun),
        before.to_multiset() == (loaded + kept).to_multiset(),
        rewritten.len() == done.written().len(),
        forall|p: int|
            0 <= p < rewritten.len() ==> (#[trigger] rewritten[p]).entries@ == relisted_entries(
                begun.pending()[p].entries@,
            ),
        (forall|m: int|
            0 <= m < loaded.len() ==> (#[trigger] loaded[m]).manifest_file.first_row_id is Some)
            || (forall|p: int|
            0 <= p < rewritten.len() ==> (#[trigger] rewritten[p]).manifest_file.first_row_id is None
                || all_numbered(begun.pending()[p].entries@)),
    ensures
        all_live_entries(rewritten + kept).to_multiset() == all_live_entries(before).to_multiset(),
        first_defect(rewritten) is None,
        version == FormatVersion::V3 ==> forall|p: int|
            0 <= p < done.written().len() ==> {
                &&& (#[trigger] done.written()[p]).first_row_id is Some <==> has_row_id(
                    begun.pending()[p].entries@,
                )
                &&& is_smallest_row_id(
                    begun.pending()[p].entries@,
                    done.written()[p].first_row_id,
                )
            },
{
    let planned = process.planned(loaded);
    lemma_written_row_ids(begun, done);
    assert(planned_entries(begun.pending()).len() == begun.pending().len());
    assert forall|p: int| 0 <= p < rewritten.len() implies lists(
        #[trigger] rewritten[p],
        planned[p],
    ) by {
        assert(planned_entries(begun.pending())[p] == begun.pending()[p].entries@);
        if forall|m: int|
            0 <= m < loaded.len() ==> (#[trigger] loaded[m]).manifest_file.first_row_id is Some {
            law_row_ids_are_written_out(process, loaded, p);
        }
    }
    law_table_reads_the_same(process, loaded, rewritten);
    lemma_all_live_concat(rewritten, kept);
    lemma_all_live_concat(loaded, kept);
    lemma_multiset_commutative(all_live_entries(rewritten), all_live_entries(kept));
    lemma_multiset_commutative(all_live_entries(loaded), all_live_entries(kept));
    lemma_load_order(before, loaded + kept);
    if version == FormatVersion::V3 {
        assert forall|p: int| 0 <= p < done.written().len() implies {
            &&& (#[trigger] done.written()[p]).first_row_id is Some <==> has_row_id(
                begun.pending()[p].entries@,
            )
            &&& is_smallest_row_id(begun.pending()[p].entries@, done.written()[p].first_row_id)
        } by {
            law_manifest_has_row_id_if_an_entry_has(begun.pending(), p);
        }
    }
}

/// A rewrite consumes no row ids: in a table of the third format version, let each
/// new manifest with rows have an entry whose row id is not negative, and let the
/// kept manifests need no row ids. Then the next row id is the same after the
/// rewrite as before it, given that the manifest list numbers the rows of the
/// manifests that have no row id, from the table's next row id on.
pub proof fn law_rewrite_consumes_no_row_ids(
    process: RewriteManifestsProcess,
    loaded: Seq<LoadedManifest>,
    begun: ManifestRewrite,
    done: ManifestRewrite,
    kept: Seq<ManifestFile>,
    commit: CommitFinishing<'_>,
    next_row_id: u64,
)
    requires
        process.begins(FormatVersion::V3, loaded, begun),
        done.completes(begun),
        forall|p: int|
            0 <= p < done.written().len() && live_rows(#[trigger] done.written()[p]) > 0
                ==> has_row_id(begun.pending()[p].entries@),
        all_manifests_numbered(kept),
        next_row_id == commit.producer.table.next_row_id + rows_to_number(done.written() + kept),
    ensures
        next_row_id == commit.producer.table.next_row_id,
        commit.row_range(Some(next_row_id)) == Some((commit.producer.table.next_row_id, 0u64)),
{
    let manifests = done.written() + kept;
    lemma_written_row_ids(begun, done);
    assert forall|i: int| 0 <= i < manifests.len() implies is_numbered(#[trigger] manifests[i]) by {
        if i < done.written().len() {
            assert(done.written()[i].first_row_id == begun.pending()[i].first_row_id);
            law_manifest_has_row_id_if_an_entry_has(begun.pending(), i);
        } else {
            assert(is_numbered(kept[i - done.written().len()]));
        }
    }
    law_numbered_manifests_consume_no_row_ids(commit, manifests, next_row_id);
}

/// Whether one of the planned manifests lists the entry.
pub open spec fn is_planned(planned: Seq<Seq<ExistingEntry>>, entry: ExistingEntry) -> bool {
    exists|p: int| 0 <= p < planned.len() && (#[trigger] planned[p]).contains(entry)
}

/// Nothing that was selected is lost: where just the manifests to rewrite have been
/// read, each of them is among what was read, and every live entry of it is
/// planned, with the row id that it has in that manifest. As many are read as the
/// summary reports to be replaced.
pub proof fn law_selected_manifest_is_planned(
    process: RewriteManifestsProcess,
    version: FormatVersion,
    loaded: Seq<LoadedManifest>,
    begun: ManifestRewrite,
    s: int,
) -> (m: int)
    requires
        process.reads(loaded),
        process.begins(version, loaded, begun),
        0 <= s < process.to_rewrite@.len(),
    ensures
        0 <= m < loaded.len(),
        loaded[m].manifest_file@ == process.to_rewrite@[s]@,
        forall|i: int|
            0 <= i < loaded[m].entries@.len() && (#[trigger] loaded[m].entries@[i]).alive()
                ==> is_planned(
                planned_entries(begun.pending()),
                lifted(process.to_rewrite@[s].first_row_id, loaded[m].entries@, i),
            ),
        begun.replaced() == loaded.len(),
{
    broadcast use vstd::seq_lib::group_to_multiset_ensures;

    let read = loaded_views(loaded);
    let selected = manifest_views(process.to_rewrite@);
    read.to_multiset_ensures();
    selected.to_multiset_ensures();
    assert(selected[s] == process.to_rewrite@[s]@);
    assert(selected.contains(selected[s]));
    assert(read.to_multiset().count(selected[s]) > 0);
    assert(read.contains(selected[s]));
    let m = choose|m: int| 0 <= m < read.len() && read[m] == selected[s];
    assert(loaded[m].manifest_file@ == process.to_rewrite@[s]@);
    let base = loaded[m].manifest_file.first_row_id;
    let entries = loaded[m].entries@;
    assert forall|i: int| 0 <= i < entries.len() && (#[trigger] entries[i]).alive() implies
        is_planned(
        planned_entries(begun.pending()),
        lifted(process.to_rewrite@[s].first_row_id, entries, i),
    ) by {
        let e = lifted(base, entries, i);
        assert(base == loaded[m].manifest_file@.first_row_id);
        lemma_lifted_contains(base, entries, entries.len() as int, e);
        lemma_all_live_contains(loaded, e);
        assert(loaded[m].live_entries().contains(e));
        lemma_planned_contains(process, loaded, e);
    }
    m
}

/// Every manifest is either rewritten or kept, and none is both.
pub proof fn law_every_manifest_is_rewritten_or_kept(
    manifests: Seq<ManifestFile>,
    default_spec_id: i32,
)
    ensures
        to_rewrite(manifests, default_spec_id).to_multiset().add(
            to_keep(manifests, default_spec_id).to_multiset(),
        ) == manifests.to_multiset(),
        to_rewrite(manifests, default_spec_id).len() + to_keep(manifests, default_spec_id).len()
            == manifests.len(),
        forall|m: ManifestFile|
            to_rewrite(manifests, default_spec_id).contains(m) ==> !#[trigger] to_keep(
                manifests,
                default_spec_id,
            ).contains(m),
    decreases manifests.len(),
{
    broadcast use {
        vstd::seq_lib::group_to_multiset_ensures,
        vstd::seq_lib::group_filter_ensures,
    };

    let chosen = |m: ManifestFile| is_rewritable(m, default_spec_id);
    let others = |m: ManifestFile| !is_rewritable(m, default_spec_id);
    if manifests.len() == 0 {
        assert(manifests =~= Seq::empty());
        assert(to_rewrite(manifests, default_spec_id).to_multiset().add(
            to_keep(manifests, default_spec_id).to_multiset(),
        ) =~= manifests.to_multiset());
    } else {
        let before = manifests.drop_last();
        let last = manifests.last();
        law_every_manifest_is_rewritten_or_kept(before, default_spec_id);
        assert(before.push(last) =~= manifests);
        before.lemma_filter_push(last, chosen);
        before.lemma_filter_push(last, others);
        vstd::seq_lib::to_multiset_build(before, last);
        vstd::seq_lib::to_multiset_build(to_rewrite(before, default_spec_id), last);
        vstd::seq_lib::to_multiset_build(to_keep(before, default_spec_id), last);
        assert(to_rewrite(manifests, default_spec_id).to_multiset().add(
            to_keep(manifests, default_spec_id).to_multiset(),
        ) =~= manifests.to_multiset());
    }
}

/// Delete manifests, and those of other partition specs, are always kept.
pub proof fn law_other_manifests_are_kept(
    manifests: Seq<ManifestFile>,
    default_spec_id: i32,
    m: ManifestFile,
)
    requires
        manifests.contains(m),
        m.content == ManifestContentType::Deletes || m.partition_spec_id != default_spec_id,
    ensures
        to_keep(manifests, default_spec_id).contains(m),
        !to_rewrite(manifests, default_spec_id).contains(m),
{
    broadcast use vstd::seq_lib::group_filter_ensures;

    let i = choose|i: int| 0 <= i < manifests.len() && manifests[i] == m;
    manifests.lemma_filter_contains(|m: ManifestFile| !is_rewritable(m, default_spec_id), i);
}

proof fn lemma_to_rewrite_concat(a: Seq<ManifestFile>, b: Seq<ManifestFile>, default_spec_id: i32)
    ensures
        to_rewrite(a + b, default_spec_id) == to_rewrite(a, default_spec_id) + to_rewrite(
            b,
            default_spec_id,
        ),
{
    Seq::filter_distributes_over_add(a, b, |m: ManifestFile| is_rewritable(m, default_spec_id));
}

proof fn lemma_kept_is_not_rewritable(manifests: Seq<ManifestFile>, default_spec_id: i32)
    ensures
        to_rewrite(to_keep(manifests, default_spec_id), default_spec_id) == Seq::<
            ManifestFile,
        >::empty(),
{
    broadcast use vstd::seq_lib::group_filter_ensures;

    let kept = to_keep(manifests, default_spec_id);
    let again = to_rewrite(kept, default_spec_id);
    if again.len() > 0 {
        let m = again[0];
        kept.lemma_filter_contains_rev(|m: ManifestFile| is_rewritable(m, default_spec_id), m);
        manifests.lemma_filter_contains_rev(
            |m: ManifestFile| !is_rewritable(m, default_spec_id),
            m,
        );
    }
    assert(again =~= Seq::empty());
}

/// A rewrite after a rewrite takes up none of the manifests that were kept.
pub proof fn law_kept_manifests_stay_kept(
    written: Seq<ManifestFile>,
    manifests: Seq<ManifestFile>,
    default_spec_id: i32,
)
    ensures
        to_rewrite(written + to_keep(manifests, default_spec_id), default_spec_id) == to_rewrite(
            written,
            default_spec_id,
        ),
{
    lemma_to_rewrite_concat(written, to_keep(manifests, default_spec_id), default_spec_id);
    lemma_kept_is_not_rewritable(manifests, default_spec_id);
}

/// After a rewrite into a single manifest that fits the target, another rewrite has
/// nothing to do.
pub proof fn law_rewrite_is_idempotent_once_consolidated(
    written: ManifestFile,
    manifests: Seq<ManifestFile>,
    default_spec_id: i32,
    target_size_bytes: u64,
)
    requires
        written.manifest_length <= target_size_bytes,
    ensures
        nothing_to_do(
            to_rewrite(seq![written] + to_keep(manifests, default_spec_id), default_spec_id),
            target_size_bytes,
        ),
{
    law_kept_manifests_stay_kept(seq![written], manifests, default_spec_id);
    let selected = to_rewrite(seq![written], default_spec_id);
    reveal_with_fuel(Seq::filter, 2);
    assert(seq![written].drop_last() =~= Seq::empty());
    reveal_with_fuel(total_size, 2);
    if selected.len() > 0 {
        assert(selected =~= seq![written]);
        assert(selected.drop_last() =~= Seq::empty());
    }
}

/// The summary of a rewrite can be read back: how many manifests were written,
/// replaced and kept, and how many entries processed.
pub proof fn law_summary_reports_rewrite(
    created: u64,
    replaced: u64,
    kept: u64,
    entries: u64,
    default: u64,
)
    ensures
        ({
            let properties = rewrite_properties(
                created as nat,
                replaced as nat,
                kept as nat,
                entries as nat,
            );
            &&& number_property(properties, MANIFESTS_CREATED@, default) == created
            &&& number_property(properties, MANIFESTS_REPLACED@, default) == replaced
            &&& number_property(properties, MANIFESTS_KEPT@, default) == kept
            &&& number_property(properties, ENTRIES_PROCESSED@, default) == entries
        }),
{
    law_decimal_reads_back(created);
    law_decimal_reads_back(replaced);
    law_decimal_reads_back(kept);
    law_decimal_reads_back(entries);
    reveal_strlit("manifests-created");
    reveal_strlit("manifests-replaced");
    reveal_strlit("manifests-kept");
    reveal_strlit("entries-processed");
    assert(MANIFESTS_CREATED@.len() == 17);
    assert(MANIFESTS_REPLACED@.len() == 18);
    assert(MANIFESTS_KEPT@.len() == 14);
    assert(MANIFESTS_CREATED@[0] == 'm');
    assert(ENTRIES_PROCESSED@[0] == 'e');
}

} // verus!
