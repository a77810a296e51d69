//! What holds of row ids, of lifted entries and of what stops them from being
//! lifted.

use vstd::prelude::*;

use crate::lineage::{
    all_live_entries, effective_row_id, entry_defect, first_defect, first_entry_defect,
    inherited_row_id, lifted_entries, unnumbered_rows, Defect, LoadedManifest,
};
use crate::manifest::{ManifestEntry, ManifestStatus};

verus! {

/// An unsigned integer taken as a signed one of the same 64 bits.
pub open spec fn signed(v: u64) -> int {
    if v < 0x8000_0000_0000_0000 {
        v as int
    } else {
        v as int - 0x1_0000_0000_0000_0000
    }
}

proof fn lemma_signed(v: u64)
    ensures
        (v as i64) as int == signed(v),
{
    assert(v < 0x8000_0000_0000_0000u64 ==> (v as i64) >= 0i64 && (v as i64) as u64 == v)
        by (bit_vector);
    assert(v >= 0x8000_0000_0000_0000u64 ==> (v as i64) == (v - 0x1_0000_0000_0000_0000))
        by (bit_vector);
}

/// The rows of the entries that store no row id.
pub open spec fn rows_without_id(entries: Seq<ManifestEntry>) -> int
    decreases entries.len(),
{
    if entries.len() == 0 {
        0
    } else if entries[0].data_file.first_row_id is None {
        signed(entries[0].data_file.record_count) + rows_without_id(entries.drop_first())
    } else {
        rows_without_id(entries.drop_first())
    }
}

proof fn lemma_rows_without_id_push(entries: Seq<ManifestEntry>, entry: ManifestEntry)
    ensures
        rows_without_id(entries.push(entry)) == rows_without_id(entries) + if
            entry.data_file.first_row_id is None {
            signed(entry.data_file.record_count)
        } else {
            0
        },
    decreases entries.len(),
{
    let more = entries.push(entry);
    if entries.len() == 0 {
        assert(more.drop_first() =~= entries);
        assert(rows_without_id(entries) == 0);
    } else {
        assert(more[0] == entries[0]);
        lemma_rows_without_id_push(entries.drop_first(), entry);
        assert(more.drop_first() =~= entries.drop_first().push(entry));
    }
}

proof fn lemma_unnumbered_rows(entries: Seq<ManifestEntry>, n: int)
    requires
        0 <= n <= entries.len(),
    ensures
        unnumbered_rows(entries, n) == rows_without_id(entries.take(n)),
    decreases n,
{
    if n > 0 {
        lemma_unnumbered_rows(entries, n - 1);
        lemma_rows_without_id_push(entries.take(n - 1), entries[n - 1]);
        lemma_signed(entries[n - 1].data_file.record_count);
        assert(entries.take(n - 1).push(entries[n - 1]) =~= entries.take(n));
    } else {
        assert(entries.take(0) =~= Seq::empty());
    }
}

proof fn lemma_inherited(first_row_id: Option<u64>, entries: Seq<ManifestEntry>, n: int)
    requires
        0 <= n <= entries.len(),
    ensures
        inherited_row_id(first_row_id, entries, n) == match first_row_id {
            Some(base) => Some(signed(base) + rows_without_id(entries.take(n))),
            None => None,
        },
{
    lemma_unnumbered_rows(entries, n);
    if let Some(base) = first_row_id {
        lemma_signed(base);
    }
}

proof fn lemma_defect_none(
    first_row_id: Option<u64>,
    entries: Seq<ManifestEntry>,
    n: int,
    i: int,
)
    requires
        0 <= i < n <= entries.len(),
        first_entry_defect(first_row_id, entries, n) is None,
    ensures
        entry_defect(first_row_id, entries, i) is None,
    decreases n,
{
    if i < n - 1 {
        lemma_defect_none(first_row_id, entries, n - 1, i);
    }
}

proof fn lemma_inherited_in_range(manifest: LoadedManifest, n: int)
    requires
        manifest.defect() is None,
        0 <= n <= manifest.entries@.len(),
        manifest.manifest_file.first_row_id is Some,
    ensures
        i64::MIN <= inherited_row_id(
            manifest.manifest_file.first_row_id,
            manifest.entries@,
            n,
        )->0 <= i64::MAX,
{
    if n > 0 {
        lemma_defect_none(
            manifest.manifest_file.first_row_id,
            manifest.entries@,
            manifest.entries@.len() as int,
            n - 1,
        );
    }
}

/// A stored row id is taken as it is stored. Without one, and in a manifest without
/// one, an entry has none. Otherwise it has the manifest's row id, moved on by the
/// rows of the entries before it that store none, deleted ones among them.
pub proof fn law_row_id_is_stored_or_counted(manifest: LoadedManifest, i: int)
    requires
        manifest.defect() is None,
        0 <= i < manifest.entries@.len(),
    ensures
        ({
            let row_id = effective_row_id(
                manifest.manifest_file.first_row_id,
                manifest.entries@,
                i,
            );
            match (
                manifest.entries@[i].data_file.first_row_id,
                manifest.manifest_file.first_row_id,
            ) {
                (Some(own), _) => row_id == Some(own),
                (None, None) => row_id is None,
                (None, Some(base)) => row_id is Some && row_id->0 as int == signed(base)
                    + rows_without_id(manifest.entries@.take(i)),
            }
        }),
{
    lemma_inherited(manifest.manifest_file.first_row_id, manifest.entries@, i);
    if manifest.manifest_file.first_row_id is Some {
        lemma_inherited_in_range(manifest, i);
    }
}

/// The first entry that inherits a row id has that of its manifest.
pub proof fn law_first_inherited_row_id_is_the_manifests(manifest: LoadedManifest, i: int)
    requires
        manifest.defect() is None,
        0 <= i < manifest.entries@.len(),
        manifest.entries@[i].data_file.first_row_id is None,
        manifest.manifest_file.first_row_id is Some,
        forall|k: int|
            0 <= k < i ==> (#[trigger] manifest.entries@[k]).data_file.first_row_id is Some,
    ensures
        ({
            let row_id = effective_row_id(
                manifest.manifest_file.first_row_id,
                manifest.entries@,
                i,
            );
            row_id is Some && row_id->0 as int == signed(manifest.manifest_file.first_row_id->0)
        }),
{
    law_row_id_is_stored_or_counted(manifest, i);
    lemma_no_rows_between(manifest.entries@, 0, i);
    assert(manifest.entries@.take(0) =~= Seq::empty());
}

proof fn lemma_no_rows_between(entries: Seq<ManifestEntry>, i: int, j: int)
    requires
        0 <= i <= j <= entries.len(),
        forall|k: int| i <= k < j ==> (#[trigger] entries[k]).data_file.first_row_id is Some,
    ensures
        rows_without_id(entries.take(j)) == rows_without_id(entries.take(i)),
    decreases j - i,
{
    if i < j {
        lemma_no_rows_between(entries, i, j - 1);
        assert(entries[j - 1].data_file.first_row_id is Some);
        lemma_rows_without_id_push(entries.take(j - 1), entries[j - 1]);
        assert(entries.take(j - 1).push(entries[j - 1]) =~= entries.take(j));
    }
}

/// Inherited row ids are adjacent: of two entries that inherit theirs, with none
/// between them that does, the second begins where the rows of the first end.
pub proof fn law_inherited_row_ids_are_adjacent(manifest: LoadedManifest, i: int, j: int)
    requires
        manifest.defect() is None,
        0 <= i < j < manifest.entries@.len(),
        manifest.manifest_file.first_row_id is Some,
        manifest.entries@[i].data_file.first_row_id is None,
        manifest.entries@[j].data_file.first_row_id is None,
        forall|k: int|
            i < k < j ==> (#[trigger] manifest.entries@[k]).data_file.first_row_id is Some,
    ensures
        ({
            let base = manifest.manifest_file.first_row_id;
            let first = effective_row_id(base, manifest.entries@, i);
            let second = effective_row_id(base, manifest.entries@, j);
            &&& first is Some
            &&& second is Some
            &&& second->0 as int == first->0 + signed(manifest.entries@[i].data_file.record_count)
        }),
{
    let entries = manifest.entries@;
    law_row_id_is_stored_or_counted(manifest, i);
    law_row_id_is_stored_or_counted(manifest, j);
    lemma_no_rows_between(entries, i + 1, j);
    lemma_rows_without_id_push(entries.take(i), entries[i]);
    assert(entries.take(i).push(entries[i]) =~= entries.take(i + 1));
}

/// Two entries of a manifest never inherit the same row id: the rows of the first
/// end before those of the second begin.
pub proof fn law_inherited_row_ids_do_not_overlap(manifest: LoadedManifest, i: int, j: int)
    requires
        manifest.defect() is None,
        0 <= i < j < manifest.entries@.len(),
        manifest.manifest_file.first_row_id is Some,
        manifest.entries@[i].data_file.first_row_id is None,
        manifest.entries@[j].data_file.first_row_id is None,
        forall|k: int|
            i <= k < j ==> (#[trigger] manifest.entries@[k]).data_file.record_count
                <= 0x7fff_ffff_ffff_ffff,
    ensures
        ({
            let base = manifest.manifest_file.first_row_id;
            let first = effective_row_id(base, manifest.entries@, i);
            let second = effective_row_id(base, manifest.entries@, j);
            &&& first is Some
            &&& second is Some
            &&& first->0 + manifest.entries@[i].data_file.record_count <= second->0
        }),
{
    let entries = manifest.entries@;
    law_row_id_is_stored_or_counted(manifest, i);
    law_row_id_is_stored_or_counted(manifest, j);
    lemma_rows_without_id_push(entries.take(i), entries[i]);
    assert(entries.take(i).push(entries[i]) =~= entries.take(i + 1));
    assert(entries[i].data_file.record_count <= 0x7fff_ffff_ffff_ffff);
    lemma_rows_grow(entries, i + 1, j);
}

proof fn lemma_rows_grow(entries: Seq<ManifestEntry>, i: int, j: int)
    requires
        0 <= i <= j <= entries.len(),
        forall|k: int|
            i <= k < j ==> (#[trigger] entries[k]).data_file.record_count <= 0x7fff_ffff_ffff_ffff,
    ensures
        rows_without_id(entries.take(i)) <= rows_without_id(entries.take(j)),
    decreases j - i,
{
    if i < j {
        lemma_rows_grow(entries, i, j - 1);
        assert(entries[j - 1].data_file.record_count <= 0x7fff_ffff_ffff_ffff);
        lemma_rows_without_id_push(entries.take(j - 1), entries[j - 1]);
        assert(entries.take(j - 1).push(entries[j - 1]) =~= entries.take(j));
    }
}

proof fn lemma_prefix(
    first_row_id: Option<u64>,
    entries: Seq<ManifestEntry>,
    more: Seq<ManifestEntry>,
    n: int,
)
    requires
        0 <= n <= entries.len() <= more.len(),
        forall|i: int| 0 <= i < entries.len() ==> #[trigger] entries[i] == more[i],
    ensures
        unnumbered_rows(entries, n) == unnumbered_rows(more, n),
        lifted_entries(first_row_id, entries, n) == lifted_entries(first_row_id, more, n),
    decreases n,
{
    if n > 0 {
        lemma_prefix(first_row_id, entries, more, n - 1);
        assert(entries[n - 1] == more[n - 1]);
    }
}

/// A manifest without entries has no live ones. One more entry at its end leaves
/// the live entries before it as they were; if it is live it comes after them, with
/// its file, its snapshot id and its sequence numbers as they are, and its row id.
pub proof fn law_one_more_entry_is_lifted_last(
    manifest: LoadedManifest,
    more: LoadedManifest,
    entry: ManifestEntry,
)
    requires
        more.entries@ == manifest.entries@.push(entry),
        more.manifest_file.first_row_id == manifest.manifest_file.first_row_id,
        more.defect() is None,
    ensures
        manifest.entries@.len() == 0 ==> manifest.live_entries().len() == 0,
        entry.status == ManifestStatus::Deleted ==> more.live_entries() == manifest.live_entries(),
        entry.status != ManifestStatus::Deleted ==> {
            let live = more.live_entries();
            let last = live.last();
            &&& live.len() == manifest.live_entries().len() + 1
            &&& live.drop_last() == manifest.live_entries()
            &&& entry.snapshot_id == Some(last.snapshot_id)
            &&& entry.sequence_number == Some(last.sequence_number)
            &&& last.file_sequence_number == entry.file_sequence_number
            &&& last.data_file.content == entry.data_file.content
            &&& last.data_file.file_path == entry.data_file.file_path
            &&& last.data_file.partition == entry.data_file.partition
            &&& last.data_file.partition_spec_id == entry.data_file.partition_spec_id
            &&& last.data_file.record_count == entry.data_file.record_count
            &&& last.data_file.file_size_in_bytes == entry.data_file.file_size_in_bytes
            &&& last.data_file.details == entry.data_file.details
            &&& match (entry.data_file.first_row_id, manifest.manifest_file.first_row_id) {
                (Some(own), _) => last.data_file.first_row_id == Some(own),
                (None, None) => last.data_file.first_row_id is None,
                (None, Some(base)) => last.data_file.first_row_id is Some
                    && last.data_file.first_row_id->0 as int == signed(base) + rows_without_id(
                    manifest.entries@,
                ),
            }
        },
{
    let n = manifest.entries@.len() as int;
    let base = manifest.manifest_file.first_row_id;
    lemma_prefix(base, manifest.entries@, more.entries@, n);
    law_row_id_is_stored_or_counted(more, n);
    assert(more.entries@.take(n) =~= manifest.entries@);
    lemma_defect_none(base, more.entries@, n + 1, n);
    assert(more.entries@[n] == entry);
    if entry.status != ManifestStatus::Deleted {
        assert(more.live_entries().drop_last() =~= manifest.live_entries());
    }
}

/// No manifests have no live entries, and one more manifest adds its own at the
/// end.
pub proof fn law_one_more_manifest_is_lifted_last(
    loaded: Seq<LoadedManifest>,
    manifest: LoadedManifest,
)
    ensures
        all_live_entries(Seq::empty()).len() == 0,
        all_live_entries(loaded.push(manifest)) == all_live_entries(loaded)
            + manifest.live_entries(),
{
    assert(loaded.push(manifest).drop_last() =~= loaded);
}

/// Whether the row id that the entries after this one would inherit is no 64-bit
/// integer.
pub open spec fn overflows_at(manifest: LoadedManifest, i: int) -> bool {
    &&& manifest.manifest_file.first_row_id matches Some(base)
    &&& {
        let next = signed(base) + rows_without_id(manifest.entries@.take(i + 1));
        next < -0x8000_0000_0000_0000 || next > 0x7fff_ffff_ffff_ffff
    }
}

/// Whether this is what is wrong at this entry.
pub open spec fn is_wrong_at(manifest: LoadedManifest, i: int, defect: Defect) -> bool {
    let entry = manifest.entries@[i];
    match defect {
        Defect::RowIdOverflow => overflows_at(manifest, i),
        Defect::MissingSnapshotId => {
            &&& !overflows_at(manifest, i)
            &&& entry.status != ManifestStatus::Deleted
            &&& entry.snapshot_id is None
        },
        Defect::MissingSequenceNumber => {
            &&& !overflows_at(manifest, i)
            &&& entry.status != ManifestStatus::Deleted
            &&& entry.snapshot_id is Some
            &&& entry.sequence_number is None
        },
    }
}

/// Whether nothing is wrong at this entry: row ids go on, and the entry is deleted
/// or has its ids.
pub open spec fn is_right_at(manifest: LoadedManifest, i: int) -> bool {
    let entry = manifest.entries@[i];
    &&& !overflows_at(manifest, i)
    &&& entry.status == ManifestStatus::Deleted || (entry.snapshot_id is Some
        && entry.sequence_number is Some)
}

/// Whether this entry is the first at which something is wrong, and it is this.
pub open spec fn goes_wrong_at(manifest: LoadedManifest, i: int, defect: Defect) -> bool {
    &&& 0 <= i < manifest.entries@.len()
    &&& is_wrong_at(manifest, i, defect)
    &&& forall|j: int| 0 <= j < i ==> #[trigger] is_right_at(manifest, j)
}

proof fn lemma_entry_defect(manifest: LoadedManifest, i: int)
    requires
        0 <= i < manifest.entries@.len(),
    ensures
        match entry_defect(manifest.manifest_file.first_row_id, manifest.entries@, i) {
            None => is_right_at(manifest, i),
            Some(defect) => is_wrong_at(manifest, i, defect),
        },
{
    lemma_inherited(manifest.manifest_file.first_row_id, manifest.entries@, i + 1);
}

proof fn lemma_first_entry_defect(manifest: LoadedManifest, n: int)
    requires
        0 <= n <= manifest.entries@.len(),
    ensures
        match first_entry_defect(manifest.manifest_file.first_row_id, manifest.entries@, n) {
            None => forall|i: int| 0 <= i < n ==> #[trigger] is_right_at(manifest, i),
            Some(defect) => exists|i: int| i < n && #[trigger] goes_wrong_at(manifest, i, defect),
        },
    decreases n,
{
    if n > 0 {
        let base = manifest.manifest_file.first_row_id;
        lemma_first_entry_defect(manifest, n - 1);
        lemma_entry_defect(manifest, n - 1);
        match first_entry_defect(base, manifest.entries@, n - 1) {
            Some(defect) => {
                let i = choose|i: int| i < n - 1 && #[trigger] goes_wrong_at(manifest, i, defect);
                assert(i < n && goes_wrong_at(manifest, i, defect));
            },
            None => {
                if let Some(defect) = entry_defect(base, manifest.entries@, n - 1) {
                    assert(goes_wrong_at(manifest, n - 1, defect));
                }
            },
        }
    }
}

/// A manifest can be lifted just when nothing is wrong at any of its entries.
/// Otherwise its defect is what is wrong at the first of them.
pub proof fn law_defect_is_the_first_of_a_manifest(manifest: LoadedManifest)
    ensures
        match manifest.defect() {
            None => forall|i: int|
                0 <= i < manifest.entries@.len() ==> #[trigger] is_right_at(manifest, i),
            Some(defect) => exists|i: int| #[trigger] goes_wrong_at(manifest, i, defect),
        },
{
    lemma_first_entry_defect(manifest, manifest.entries@.len() as int);
    if let Some(defect) = manifest.defect() {
        let i = choose|i: int|
            i < manifest.entries@.len() && #[trigger] goes_wrong_at(manifest, i, defect);
        assert(goes_wrong_at(manifest, i, defect));
    }
}

/// Whether this is the first manifest with a defect, and it is this.
pub open spec fn fails_at(loaded: Seq<LoadedManifest>, m: int, defect: Defect) -> bool {
    &&& 0 <= m < loaded.len()
    &&& loaded[m].defect() == Some(defect)
    &&& forall|k: int| 0 <= k < m ==> (#[trigger] loaded[k]).defect() is None
}

/// Manifests can be lifted just when each of them can. Otherwise their defect is
/// that of the first that cannot.
pub proof fn law_defect_is_that_of_the_first_manifest(loaded: Seq<LoadedManifest>)
    ensures
        match first_defect(loaded) {
            None => forall|m: int| 0 <= m < loaded.len() ==> (#[trigger] loaded[m]).defect() is None,
            Some(defect) => exists|m: int| #[trigger] fails_at(loaded, m, defect),
        },
    decreases loaded.len(),
{
    if loaded.len() > 0 {
        let before = loaded.drop_last();
        let n = loaded.len() - 1;
        law_defect_is_that_of_the_first_manifest(before);
        match first_defect(before) {
            Some(defect) => {
                let m = choose|m: int| #[trigger] fails_at(before, m, defect);
                assert forall|k: int| 0 <= k < m implies (#[trigger] loaded[k]).defect() is None by {
                    assert(before[k].defect() is None);
                }
                assert(fails_at(loaded, m, defect));
            },
            None => {
                assert forall|k: int| 0 <= k < n implies (#[trigger] loaded[k]).defect() is None by {
                    assert(before[k].defect() is None);
                }
                if let Some(defect) = loaded[n].defect() {
                    assert(fails_at(loaded, n, defect));
                }
            },
        }
    }
}

} // verus!
