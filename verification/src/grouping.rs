//! Entries grouped by partition.

use vstd::prelude::*;

use crate::lineage::ExistingEntry;
use crate::partition::LiteralKey;

verus! {

impl ExistingEntry {
    /// The partition that the entry's file belongs to.
    pub open spec fn partition_key(self) -> Seq<Option<LiteralKey>> {
        self.data_file.partition.key()
    }
}

/// The partitions of the entries, each once, in the order in which they first
/// occur.
pub open spec fn partitions(entries: Seq<ExistingEntry>) -> Seq<Seq<Option<LiteralKey>>>
    decreases entries.len(),
{
    if entries.len() == 0 {
        Seq::empty()
    } else {
        let before = partitions(entries.drop_last());
        let key = entries.last().partition_key();
        if before.contains(key) {
            before
        } else {
            before.push(key)
        }
    }
}

/// The entries of one partition, in order.
pub open spec fn of_partition(
    entries: Seq<ExistingEntry>,
    key: Seq<Option<LiteralKey>>,
) -> Seq<ExistingEntry> {
    entries.filter(|e: ExistingEntry| e.partition_key() == key)
}

/// The entries grouped by partition: the groups in the order in which their
/// partitions first occur, and within a group the entries in order.
pub open spec fn grouped(entries: Seq<ExistingEntry>) -> Seq<Seq<ExistingEntry>> {
    partitions(entries).map_values(|key: Seq<Option<LiteralKey>>| of_partition(entries, key))
}

/// The contents of the groups.
pub open spec fn group_views(groups: Seq<Vec<ExistingEntry>>) -> Seq<Seq<ExistingEntry>> {
    groups.map_values(|g: Vec<ExistingEntry>| g@)
}

/// What one more entry does to the groups.
pub proof fn lemma_grouped_push(entries: Seq<ExistingEntry>, entry: ExistingEntry)
    ensures
        ({
            let keys = partitions(entries);
            let key = entry.partition_key();
            let groups = grouped(entries);
            &&& partitions(entries).no_duplicates()
            &&& forall|i: int| 0 <= i < entries.len() ==> keys.contains(
                (#[trigger] entries[i]).partition_key(),
            )
            &&& forall|j: int|
                0 <= j < keys.len() ==> (#[trigger] groups[j]).len() > 0 && groups[j][0].partition_key()
                    == keys[j]
            &&& forall|j: int|
                0 <= j < keys.len() && #[trigger] keys[j] == key ==> grouped(entries.push(entry))
                    == groups.update(j, groups[j].push(entry))
            &&& !keys.contains(key) ==> grouped(entries.push(entry)) == groups.push(seq![entry])
        }),
    decreases entries.len(),
{
    broadcast use vstd::seq_lib::group_filter_ensures;

    let keys = partitions(entries);
    let key = entry.partition_key();
    let groups = grouped(entries);
    let more = entries.push(entry);
    assert(more.drop_last() =~= entries);
    if entries.len() > 0 {
        let before = entries.drop_last();
        lemma_grouped_push(before, entries.last());
        assert(before.push(entries.last()) =~= entries);
        assert forall|i: int| 0 <= i < entries.len() implies keys.contains(
            (#[trigger] entries[i]).partition_key(),
        ) by {
            if i < before.len() {
                assert(before[i] == entries[i]);
                let j = choose|j: int|
                    0 <= j < partitions(before).len() && partitions(before)[j]
                        == entries[i].partition_key();
                assert(keys[j] == entries[i].partition_key());
            } else if !partitions(before).contains(entries.last().partition_key()) {
                assert(keys.last() == entries[i].partition_key());
            }
        }
        assert forall|j: int| 0 <= j < keys.len() implies (#[trigger] groups[j]).len() > 0
            && groups[j][0].partition_key() == keys[j] by {
            let last_key = entries.last().partition_key();
            if partitions(before).contains(last_key) {
                let k = choose|k: int|
                    0 <= k < partitions(before).len() && partitions(before)[k] == last_key;
                assert(groups == grouped(before).update(k, grouped(before)[k].push(entries.last())));
                assert(grouped(before)[j].len() > 0);
            } else {
                assert(groups == grouped(before).push(seq![entries.last()]));
                if j < partitions(before).len() {
                    assert(grouped(before)[j].len() > 0);
                }
            }
        }
    }
    assert forall|k: Seq<Option<LiteralKey>>| k != key implies #[trigger] of_partition(more, k)
        == of_partition(entries, k) by {
        entries.lemma_filter_push(entry, |e: ExistingEntry| e.partition_key() == k);
    }
    entries.lemma_filter_push(entry, |e: ExistingEntry| e.partition_key() == key);
    assert(of_partition(more, key) == of_partition(entries, key).push(entry));
    assert forall|j: int| 0 <= j < keys.len() && #[trigger] keys[j] == key implies grouped(more)
        == groups.update(j, groups[j].push(entry)) by {
        assert(keys.contains(key));
        assert forall|i: int| 0 <= i < keys.len() implies grouped(more)[i] == groups.update(
            j,
            groups[j].push(entry),
        )[i] by {
            if i != j {
                assert(keys[i] != key);
            }
        }
        assert(grouped(more) =~= groups.update(j, groups[j].push(entry)));
    }
    if !keys.contains(key) {
        assert(of_partition(entries, key) =~= Seq::empty()) by {
            if of_partition(entries, key).len() > 0 {
                let e = of_partition(entries, key)[0];
                entries.lemma_filter_contains_rev(
                    |e: ExistingEntry| e.partition_key() == key,
                    e,
                );
            }
        }
        assert forall|i: int| 0 <= i < keys.len() implies grouped(more)[i] == groups[i] by {
            assert(keys[i] != key);
        }
        assert(grouped(more) =~= groups.push(seq![entry]));
    }
}

/// Groups the entries by partition.
pub fn group_by_partition(entries: Vec<ExistingEntry>) -> (r: Vec<Vec<ExistingEntry>>)
    ensures
        group_views(r@) == grouped(entries@),
{
    let mut groups: Vec<Vec<ExistingEntry>> = Vec::new();
    let ghost all = entries@;
    assert(all.take(0) =~= Seq::empty());
    assert(group_views(groups@) =~= grouped(all.take(0)));
    for entry in it: entries
        invariant
            it.seq() == all,
            group_views(groups@) == grouped(all.take(it.index())),
    {
        let ghost i = it.index();
        assert(all.take(i).push(all[i]) =~= all.take(i + 1));
        add_to_group(&mut groups, entry, Ghost(all.take(i)));
    }
    assert(all.take(all.len() as int) =~= all);
    groups
}

fn add_to_group(
    groups: &mut Vec<Vec<ExistingEntry>>,
    entry: ExistingEntry,
    Ghost(entries): Ghost<Seq<ExistingEntry>>,
)
    requires
        group_views(old(groups)@) == grouped(entries),
    ensures
        group_views(final(groups)@) == grouped(entries.push(entry)),
{
    let ghost keys = partitions(entries);
    let ghost before = groups@;
    proof {
        lemma_grouped_push(entries, entry);
        assert(group_views(before).len() == before.len());
        assert(grouped(entries).len() == keys.len());
        assert forall|j: int| 0 <= j < before.len() implies (#[trigger] before[j])@.len() > 0 by {
            assert(group_views(before)[j] == before[j]@);
            assert(grouped(entries)[j].len() > 0);
        }
    }
    match find_group(groups, &entry) {
        Some(i) => {
            assert(group_views(before)[i as int] == before[i as int]@);
            assert(grouped(entries)[i as int].len() > 0);
            assert(keys[i as int] == entry.partition_key());
            groups[i].push(entry);
            assert(group_views(groups@) =~= grouped(entries).update(
                i as int,
                grouped(entries)[i as int].push(entry),
            ));
        },
        None => {
            assert forall|j: int| 0 <= j < keys.len() implies keys[j] != entry.partition_key() by {
                assert(group_views(before)[j] == before[j]@);
                assert(grouped(entries)[j].len() > 0);
            }
            let mut group: Vec<ExistingEntry> = Vec::new();
            group.push(entry);
            groups.push(group);
            assert(group@ =~= seq![entry]);
            assert(group_views(groups@) =~= grouped(entries).push(seq![entry]));
        },
    }
}

/// Finds the group whose first entry is of the same partition.
fn find_group(groups: &Vec<Vec<ExistingEntry>>, entry: &ExistingEntry) -> (r: Option<usize>)
    requires
        forall|j: int| 0 <= j < groups@.len() ==> (#[trigger] groups@[j])@.len() > 0,
    ensures
        match r {
            Some(i) => i < groups@.len() && groups@[i as int]@[0].partition_key()
                == entry.partition_key(),
            None => forall|j: int|
                0 <= j < groups@.len() ==> (#[trigger] groups@[j])@[0].partition_key()
                    != entry.partition_key(),
        },
{
    for i in 0..groups.len()
        invariant
            forall|j: int| 0 <= j < groups@.len() ==> (#[trigger] groups@[j])@.len() > 0,
            forall|j: int|
                0 <= j < i ==> (#[trigger] groups@[j])@[0].partition_key()
                    != entry.partition_key(),
    {
        if groups[i][0].data_file.partition.same(&entry.data_file.partition) {
            return Some(i);
        }
    }
    None
}

} // verus!
