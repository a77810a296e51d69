//! Entries rolled into manifests of a target size.

use vstd::prelude::*;

use crate::lineage::ExistingEntry;

verus! {

/// A manifest to be written: its entries, and the smallest row id among them.
#[derive(Debug, Clone, PartialEq, Eq)]
pub struct PlannedManifest {
    pub entries: Vec<ExistingEntry>,
    pub first_row_id: Option<u64>,
}

/// How many entries a manifest takes before it is rolled: as many as fit the
/// target, and never none. No target that is the largest integer is ever
/// exceeded, and neither is any by entries of no size.
pub open spec fn manifest_capacity(bytes_per_entry: u64, target_size_bytes: u64) -> Option<nat> {
    if bytes_per_entry == 0 || target_size_bytes == u64::MAX {
        None
    } else if bytes_per_entry > target_size_bytes {
        Some(1)
    } else {
        Some((target_size_bytes / bytes_per_entry) as nat)
    }
}

/// The sequence cut into pieces of `n`, the last piece taking what is left.
pub open spec fn pieces(entries: Seq<ExistingEntry>, n: nat) -> Seq<Seq<ExistingEntry>>
    decreases entries.len(),
{
    if n == 0 || entries.len() <= n {
        seq![entries]
    } else {
        seq![entries.take(n as int)] + pieces(entries.skip(n as int), n)
    }
}

/// The entries of one group, rolled into manifests of at most this capacity.
pub open spec fn rolled(entries: Seq<ExistingEntry>, capacity: Option<nat>) -> Seq<
    Seq<ExistingEntry>,
> {
    match capacity {
        Some(n) => pieces(entries, n),
        None => seq![entries],
    }
}

/// The groups rolled one after the other.
pub open spec fn rolled_groups(groups: Seq<Seq<ExistingEntry>>, capacity: Option<nat>) -> Seq<
    Seq<ExistingEntry>,
>
    decreases groups.len(),
{
    if groups.len() == 0 {
        Seq::empty()
    } else {
        rolled_groups(groups.drop_last(), capacity) + rolled(groups.last(), capacity)
    }
}

/// Whether this is the smallest of the row ids that the entries store, leaving
/// out negative ones.
pub open spec fn is_smallest_row_id(entries: Seq<ExistingEntry>, row_id: Option<u64>) -> bool {
    match row_id {
        Some(smallest) => {
            &&& exists|i: int|
                0 <= i < entries.len() && (#[trigger] entries[i]).data_file.first_row_id
                    == Some(smallest as i64) && smallest <= i64::MAX
            &&& forall|i: int|
                0 <= i < entries.len() ==> match (#[trigger] entries[i]).data_file.first_row_id {
                    Some(own) => own < 0 || smallest <= own,
                    None => true,
                }
        },
        None => forall|i: int|
            0 <= i < entries.len() ==> match (#[trigger] entries[i]).data_file.first_row_id {
                Some(own) => own < 0,
                None => true,
            },
    }
}

/// The entries of the planned manifests.
pub open spec fn planned_entries(manifests: Seq<PlannedManifest>) -> Seq<Seq<ExistingEntry>> {
    manifests.map_values(|m: PlannedManifest| m.entries@)
}

/// Whether each planned manifest has the smallest row id of its entries.
pub open spec fn row_ids_planned(manifests: Seq<PlannedManifest>) -> bool {
    forall|i: int|
        0 <= i < manifests.len() ==> is_smallest_row_id(
            (#[trigger] manifests[i]).entries@,
            manifests[i].first_row_id,
        )
}

/// What one more entry does to the pieces: it joins the last one, or starts
/// another if the last is full.
proof fn lemma_pieces_push(entries: Seq<ExistingEntry>, entry: ExistingEntry, n: nat)
    requires
        n > 0,
    ensures
        ({
            let before = pieces(entries, n);
            let after = pieces(entries.push(entry), n);
            &&& before.len() > 0
            &&& before.last().len() <= n
            &&& before.last().len() < n ==> after == before.drop_last().push(
                before.last().push(entry),
            )
            &&& before.last().len() == n ==> after == before.push(seq![entry])
        }),
    decreases entries.len(),
{
    let before = pieces(entries, n);
    let more = entries.push(entry);
    let after = pieces(more, n);
    if entries.len() < n {
        assert(before.drop_last().push(before.last().push(entry)) =~= seq![more]);
    } else if entries.len() == n {
        assert(more.take(n as int) =~= entries);
        assert(more.skip(n as int) =~= seq![entry]);
        assert(pieces(seq![entry], n) =~= seq![seq![entry]]);
        assert(after =~= before.push(seq![entry]));
    } else {
        let rest = entries.skip(n as int);
        lemma_pieces_push(rest, entry, n);
        assert(more.take(n as int) =~= entries.take(n as int));
        assert(more.skip(n as int) =~= rest.push(entry));
        assert(before.last() == pieces(rest, n).last());
        if before.last().len() < n {
            assert(after =~= before.drop_last().push(before.last().push(entry)));
        } else {
            assert(after =~= before.push(seq![entry]));
        }
    }
}

/// The size of `count` entries, as far as an integer holds it.
pub open spec fn saturated_size(bytes_per_entry: u64, count: nat) -> int {
    if count * bytes_per_entry > u64::MAX {
        u64::MAX as int
    } else {
        count * bytes_per_entry
    }
}

/// A manifest is rolled just when it has reached its capacity.
pub proof fn lemma_roll_at_capacity(bytes_per_entry: u64, target_size_bytes: u64, count: nat)
    ensures
        ({
            let size = saturated_size(bytes_per_entry, count);
            let next = saturated_size(bytes_per_entry, count + 1);
            &&& next == if size + bytes_per_entry > u64::MAX {
                u64::MAX as int
            } else {
                size + bytes_per_entry
            }
            &&& (size > 0 && next > target_size_bytes) == match manifest_capacity(
                bytes_per_entry,
                target_size_bytes,
            ) {
                Some(n) => n > 0 && count >= n,
                None => false,
            }
            &&& manifest_capacity(bytes_per_entry, target_size_bytes) matches Some(n) ==> n > 0
        }),
{
    let b = bytes_per_entry as int;
    let t = target_size_bytes as int;
    let c = count as int;
    assert((c + 1) * b == c * b + b) by (nonlinear_arith);
    assert(c * b >= 0) by (nonlinear_arith)
        requires
            c >= 0,
            b >= 0,
    ;
    assert(c == 0 ==> c * b == 0) by (nonlinear_arith);
    if b > 0 {
        assert(c > 0 ==> c * b > 0) by (nonlinear_arith)
            requires
                b > 0,
        ;
        if b <= t {
            let q = t / b;
            assert(q * b <= t < (q + 1) * b && q >= 1) by (nonlinear_arith)
                requires
                    0 < b <= t,
                    q == t / b,
            ;
            if c >= q {
                assert((c + 1) * b >= (q + 1) * b) by (nonlinear_arith)
                    requires
                        c >= q,
                        b > 0,
                ;
            } else {
                assert((c + 1) * b <= q * b) by (nonlinear_arith)
                    requires
                        c + 1 <= q,
                        b > 0,
                ;
            }
        } else if c >= 1 {
            assert((c + 1) * b > t) by (nonlinear_arith)
                requires
                    c >= 1,
                    b > t,
                    t >= 0,
            ;
        }
    } else {
        assert(c * b == 0) by (nonlinear_arith)
            requires
                b == 0,
        ;
    }
}

/// The smallest row id after one more entry.
fn smaller_row_id(smallest: Option<u64>, entry: &ExistingEntry) -> (r: Option<u64>)
    ensures
        forall|entries: Seq<ExistingEntry>|
            is_smallest_row_id(entries, smallest) ==> #[trigger] is_smallest_row_id(
                entries.push(*entry),
                r,
            ),
{
    let r: Option<u64> = match entry.data_file.first_row_id {
        Some(own) => if own < 0 {
            smallest
        } else {
            match smallest {
                Some(other) => if other < own as u64 {
                    smallest
                } else {
                    Some(own as u64)
                },
                None => Some(own as u64),
            }
        },
        None => smallest,
    };
    assert forall|entries: Seq<ExistingEntry>|
        is_smallest_row_id(entries, smallest) implies #[trigger] is_smallest_row_id(
        entries.push(*entry),
        r,
    ) by {
        let more = entries.push(*entry);
        if r != smallest {
            assert(more[entries.len() as int] == *entry);
        } else if smallest is Some {
            let i = choose|i: int|
                0 <= i < entries.len() && (#[trigger] entries[i]).data_file.first_row_id
                    == Some(smallest->0 as i64) && smallest->0 <= i64::MAX;
            assert(more[i] == entries[i]);
        }
        assert forall|i: int| 0 <= i < entries.len() implies more[i] == entries[i] by {}
    }
    r
}

/// Rolls the entries of one group into manifests, after those that are planned.
pub fn roll_group(
    planned: &mut Vec<PlannedManifest>,
    group: Vec<ExistingEntry>,
    bytes_per_entry: u64,
    target_size_bytes: u64,
)
    requires
        row_ids_planned(old(planned)@),
    ensures
        planned_entries(final(planned)@) == planned_entries(old(planned)@) + rolled(
            group@,
            manifest_capacity(bytes_per_entry, target_size_bytes),
        ),
        row_ids_planned(final(planned)@),
{
    let ghost all = group@;
    let ghost capacity = manifest_capacity(bytes_per_entry, target_size_bytes);
    let ghost before = planned_entries(planned@);
    let mut current: Vec<ExistingEntry> = Vec::new();
    let mut accumulated: u64 = 0;
    let mut first_row_id: Option<u64> = None;
    proof {
        lemma_roll_at_capacity(bytes_per_entry, target_size_bytes, 0);
    }
    assert(all.take(0) =~= Seq::empty());
    assert(current@ =~= Seq::empty());
    assert(rolled(all.take(0), capacity) =~= seq![current@]);
    assert(planned_entries(planned@).push(current@) =~= before + rolled(all.take(0), capacity));
    for entry in it: group
        invariant
            it.seq() == all,
            capacity == manifest_capacity(bytes_per_entry, target_size_bytes),
            capacity is Some ==> capacity->0 > 0,
            planned_entries(planned@).push(current@) == before + rolled(
                all.take(it.index()),
                capacity,
            ),
            capacity is None ==> planned_entries(planned@) == before,
            accumulated == saturated_size(bytes_per_entry, current@.len()),
            is_smallest_row_id(current@, first_row_id),
            row_ids_planned(planned@),
    {
        let ghost i = it.index();
        let ghost so_far = all.take(i);
        let ghost done = planned_entries(planned@);
        let ghost open = current@;
        assert(so_far.push(all[i]) =~= all.take(i + 1));
        proof {
            lemma_roll_at_capacity(bytes_per_entry, target_size_bytes, current@.len());
            if let Some(n) = capacity {
                lemma_pieces_push(so_far, all[i], n);
                let p = pieces(so_far, n);
                assert((before + p).last() == p.last());
                assert(done.push(open).last() == open);
                assert(done =~= before + p.drop_last()) by {
                    assert((before + p).drop_last() =~= before + p.drop_last());
                    assert(done.push(open).drop_last() =~= done);
                }
            }
        }
        if accumulated > 0 && accumulated.saturating_add(bytes_per_entry) > target_size_bytes {
            planned.push(PlannedManifest { entries: current, first_row_id });
            assert(planned_entries(planned@) =~= done.push(open));
            current = Vec::new();
            accumulated = 0;
            first_row_id = None;
            proof {
                lemma_roll_at_capacity(bytes_per_entry, target_size_bytes, 0);
            }
        }
        let ghost last = current@;
        first_row_id = smaller_row_id(first_row_id, &entry);
        current.push(entry);
        assert(is_smallest_row_id(last.push(entry), first_row_id));
        accumulated = accumulated.saturating_add(bytes_per_entry);
        proof {
            if let Some(n) = capacity {
                let p = pieces(so_far, n);
                if open.len() < n {
                    assert(planned_entries(planned@) == done);
                    assert(current@ == open.push(entry));
                    assert(before + p.drop_last().push(p.last().push(entry)) =~= done.push(
                        current@,
                    ));
                } else {
                    assert(current@ =~= seq![entry]);
                    assert(before + p.push(seq![entry]) =~= done.push(open).push(current@));
                }
            } else {
                assert(done.push(open).last() == (before + seq![so_far]).last());
                assert(open == so_far);
                assert(done.push(current@) =~= before + seq![all.take(i + 1)]);
            }
        }
    }
    assert(all.take(all.len() as int) =~= all);
    planned.push(PlannedManifest { entries: current, first_row_id });
    assert(planned_entries(planned@) =~= before + rolled(all, capacity));
}

} // verus!
