//! Live entries and the row ids that they carry or inherit.
//!
//! An entry that stores no first row id derives it from its manifest: from the
//! manifest's own first row id plus the record counts of the entries before it
//! that store none either. Copied into another manifest, where that base is not
//! available, the derived id has to be written with the entry.

use vstd::prelude::*;

use crate::manifest::{DataFile, ManifestEntry, ManifestFile};

verus! {

/// A manifest that has been read: its line in the manifest list and its entries.
#[derive(Debug, Clone, PartialEq, Eq)]
pub struct LoadedManifest {
    pub manifest_file: ManifestFile,
    pub entries: Vec<ManifestEntry>,
}

/// A live entry lifted out of its manifest, with what it takes to list the file
/// as existing in another one.
#[derive(Debug, Clone, PartialEq, Eq)]
pub struct ExistingEntry {
    pub data_file: DataFile,
    pub snapshot_id: i64,
    pub sequence_number: i64,
    pub file_sequence_number: Option<i64>,
}

/// What stops an entry from being lifted.
#[derive(Debug, Clone, Copy, PartialEq, Eq, Structural)]
pub enum Defect {
    /// The row id that the next entry would inherit is no 64-bit integer.
    RowIdOverflow,
    /// The live entry has no snapshot id.
    MissingSnapshotId,
    /// The live entry has no sequence number.
    MissingSequenceNumber,
}

/// The rows of the first `n` entries that store no first row id, with each record
/// count taken as a signed 64-bit integer.
pub open spec fn unnumbered_rows(entries: Seq<ManifestEntry>, n: int) -> int
    decreases n,
{
    if n <= 0 {
        0
    } else {
        unnumbered_rows(entries, n - 1) + if entries[n - 1].data_file.first_row_id is None {
            (entries[n - 1].data_file.record_count as i64) as int
        } else {
            0
        }
    }
}

/// The row id that entry `n` of a manifest inherits if it stores none.
pub open spec fn inherited_row_id(
    first_row_id: Option<u64>,
    entries: Seq<ManifestEntry>,
    n: int,
) -> Option<int> {
    match first_row_id {
        Some(base) => Some((base as i64) + unnumbered_rows(entries, n)),
        None => None,
    }
}

/// The first row id of entry `n`: its own, or else the one that it inherits.
pub open spec fn effective_row_id(
    first_row_id: Option<u64>,
    entries: Seq<ManifestEntry>,
    n: int,
) -> Option<i64> {
    match entries[n].data_file.first_row_id {
        Some(own) => Some(own),
        None => match inherited_row_id(first_row_id, entries, n) {
            Some(row_id) => Some(row_id as i64),
            None => None,
        },
    }
}

/// Entry `n` lifted out of the manifest: everything as it was, and the first row
/// id written out.
pub open spec fn lifted(
    first_row_id: Option<u64>,
    entries: Seq<ManifestEntry>,
    n: int,
) -> ExistingEntry {
    ExistingEntry {
        data_file: DataFile {
            first_row_id: effective_row_id(first_row_id, entries, n),
            ..entries[n].data_file
        },
        snapshot_id: entries[n].snapshot_id->0,
        sequence_number: entries[n].sequence_number->0,
        file_sequence_number: entries[n].file_sequence_number,
    }
}

/// The live ones among the first `n` entries of a manifest, lifted, in order.
pub open spec fn lifted_entries(
    first_row_id: Option<u64>,
    entries: Seq<ManifestEntry>,
    n: int,
) -> Seq<ExistingEntry>
    decreases n,
{
    if n <= 0 {
        Seq::empty()
    } else if entries[n - 1].alive() {
        lifted_entries(first_row_id, entries, n - 1).push(lifted(first_row_id, entries, n - 1))
    } else {
        lifted_entries(first_row_id, entries, n - 1)
    }
}

/// What is wrong with entry `n` itself.
pub open spec fn entry_defect(
    first_row_id: Option<u64>,
    entries: Seq<ManifestEntry>,
    n: int,
) -> Option<Defect> {
    let next = inherited_row_id(first_row_id, entries, n + 1);
    if next is Some && !(i64::MIN <= next->0 <= i64::MAX) {
        Some(Defect::RowIdOverflow)
    } else if !entries[n].alive() {
        None
    } else if entries[n].snapshot_id is None {
        Some(Defect::MissingSnapshotId)
    } else if entries[n].sequence_number is None {
        Some(Defect::MissingSequenceNumber)
    } else {
        None
    }
}

/// The first defect among the first `n` entries of a manifest.
pub open spec fn first_entry_defect(
    first_row_id: Option<u64>,
    entries: Seq<ManifestEntry>,
    n: int,
) -> Option<Defect>
    decreases n,
{
    if n <= 0 {
        None
    } else {
        match first_entry_defect(first_row_id, entries, n - 1) {
            Some(defect) => Some(defect),
            None => entry_defect(first_row_id, entries, n - 1),
        }
    }
}

impl LoadedManifest {
    /// The manifest's live entries, lifted, in order.
    pub open spec fn live_entries(self) -> Seq<ExistingEntry> {
        lifted_entries(self.manifest_file.first_row_id, self.entries@, self.entries@.len() as int)
    }

    /// The first defect among the manifest's entries.
    pub open spec fn defect(self) -> Option<Defect> {
        first_entry_defect(
            self.manifest_file.first_row_id,
            self.entries@,
            self.entries@.len() as int,
        )
    }
}

/// The live entries of all the manifests, lifted, manifest after manifest.
pub open spec fn all_live_entries(manifests: Seq<LoadedManifest>) -> Seq<ExistingEntry>
    decreases manifests.len(),
{
    if manifests.len() == 0 {
        Seq::empty()
    } else {
        all_live_entries(manifests.drop_last()) + manifests.last().live_entries()
    }
}

/// The first defect in the manifests, read one after the other.
pub open spec fn first_defect(manifests: Seq<LoadedManifest>) -> Option<Defect>
    decreases manifests.len(),
{
    if manifests.len() == 0 {
        None
    } else {
        match first_defect(manifests.drop_last()) {
            Some(defect) => Some(defect),
            None => manifests.last().defect(),
        }
    }
}

/// Finds the first thing that stops the manifests' entries from being lifted.
pub fn find_defect(manifests: &Vec<LoadedManifest>) -> (r: Option<Defect>)
    ensures
        r == first_defect(manifests@),
{
    for i in 0..manifests.len()
        invariant
            first_defect(manifests@.take(i as int)) is None,
    {
        assert(manifests@.take(i + 1).drop_last() =~= manifests@.take(i as int));
        let found = find_entry_defect(&manifests[i]);
        if found.is_some() {
            proof {
                lemma_first_defect_stays(manifests@, i + 1);
            }
            return found;
        }
    }
    assert(manifests@.take(manifests@.len() as int) =~= manifests@);
    None
}

fn find_entry_defect(manifest: &LoadedManifest) -> (r: Option<Defect>)
    ensures
        r == manifest.defect(),
{
    let ghost base = manifest.manifest_file.first_row_id;
    let ghost entries = manifest.entries@;
    let mut inherited: Option<i64> = match manifest.manifest_file.first_row_id {
        Some(row_id) => Some(row_id as i64),
        None => None,
    };
    for n in 0..manifest.entries.len()
        invariant
            base == manifest.manifest_file.first_row_id,
            entries == manifest.entries@,
            first_entry_defect(base, entries, n as int) is None,
            inherited is Some <==> base is Some,
            inherited is Some ==> inherited_row_id(base, entries, n as int) == Some(
                inherited->0 as int,
            ),
    {
        let entry = &manifest.entries[n];
        let mut found: Option<Defect> = None;
        if entry.data_file.first_row_id.is_none() {
            if let Some(row_id) = inherited {
                match row_id.checked_add(entry.data_file.record_count as i64) {
                    Some(next) => {
                        inherited = Some(next);
                    },
                    None => {
                        found = Some(Defect::RowIdOverflow);
                    },
                }
            }
        }
        if found.is_none() && entry.is_alive() {
            if entry.snapshot_id.is_none() {
                found = Some(Defect::MissingSnapshotId);
            } else if entry.sequence_number.is_none() {
                found = Some(Defect::MissingSequenceNumber);
            }
        }
        assert(found == entry_defect(base, entries, n as int));
        if found.is_some() {
            proof {
                lemma_first_entry_defect_stays(base, entries, n + 1, entries.len() as int);
            }
            return found;
        }
    }
    None
}

proof fn lemma_first_entry_defect_stays(
    first_row_id: Option<u64>,
    entries: Seq<ManifestEntry>,
    n: int,
    m: int,
)
    requires
        n <= m,
        first_entry_defect(first_row_id, entries, n) is Some,
    ensures
        first_entry_defect(first_row_id, entries, m) == first_entry_defect(first_row_id, entries, n),
    decreases m - n,
{
    if n < m {
        lemma_first_entry_defect_stays(first_row_id, entries, n, m - 1);
    }
}

proof fn lemma_first_defect_stays(manifests: Seq<LoadedManifest>, n: int)
    requires
        0 <= n <= manifests.len(),
        first_defect(manifests.take(n)) is Some,
    ensures
        first_defect(manifests) == first_defect(manifests.take(n)),
    decreases manifests.len(),
{
    if n < manifests.len() {
        assert(manifests.drop_last().take(n) =~= manifests.take(n));
        lemma_first_defect_stays(manifests.drop_last(), n);
    } else {
        assert(manifests.take(n) =~= manifests);
    }
}

/// Lifts the live entries out of the manifests, with each entry's first row id
/// written out.
pub fn lift_live_entries(manifests: Vec<LoadedManifest>) -> (r: Vec<ExistingEntry>)
    requires
        first_defect(manifests@) is None,
    ensures
        r@ == all_live_entries(manifests@),
{
    let mut out: Vec<ExistingEntry> = Vec::new();
    let ghost all = manifests@;
    assert(all.take(0) =~= Seq::empty());
    for manifest in it: manifests
        invariant
            it.seq() == all,
            first_defect(all) is None,
            out@ == all_live_entries(all.take(it.index())),
    {
        let ghost i = it.index();
        assert(all.take(i + 1).drop_last() =~= all.take(i));
        proof {
            lemma_no_defect_before(all, i + 1);
        }
        lift_manifest(manifest, &mut out);
    }
    assert(all.take(all.len() as int) =~= all);
    out
}

proof fn lemma_no_defect_before(manifests: Seq<LoadedManifest>, n: int)
    requires
        0 <= n <= manifests.len(),
        first_defect(manifests) is None,
    ensures
        first_defect(manifests.take(n)) is None,
{
    if first_defect(manifests.take(n)) is Some {
        lemma_first_defect_stays(manifests, n);
    }
}

fn lift_manifest(manifest: LoadedManifest, out: &mut Vec<ExistingEntry>)
    requires
        manifest.defect() is None,
    ensures
        final(out)@ == old(out)@ + manifest.live_entries(),
{
    let ghost base = manifest.manifest_file.first_row_id;
    let ghost entries = manifest.entries@;
    let ghost before = out@;
    let mut inherited: Option<i64> = match manifest.manifest_file.first_row_id {
        Some(row_id) => Some(row_id as i64),
        None => None,
    };
    assert(before + lifted_entries(base, entries, 0) =~= before);
    for entry in it: manifest.entries
        invariant
            it.seq() == entries,
            first_entry_defect(base, entries, entries.len() as int) is None,
            inherited is Some <==> base is Some,
            inherited is Some ==> inherited_row_id(base, entries, it.index()) == Some(
                inherited->0 as int,
            ),
            out@ == before + lifted_entries(base, entries, it.index()),
    {
        let ghost n = it.index();
        proof {
            if first_entry_defect(base, entries, n + 1) is Some {
                lemma_first_entry_defect_stays(base, entries, n + 1, entries.len() as int);
            }
        }
        assert(entry_defect(base, entries, n) is None);
        let own = entry.data_file.first_row_id;
        let effective: Option<i64> = if own.is_some() { own } else { inherited };
        if own.is_none() {
            if let Some(row_id) = inherited {
                inherited = Some(row_id + entry.data_file.record_count as i64);
            }
        }
        if entry.is_alive() {
            let mut data_file = entry.data_file;
            data_file.first_row_id = effective;
            if let (Some(snapshot_id), Some(sequence_number)) = (
                entry.snapshot_id,
                entry.sequence_number,
            ) {
                let lifted_entry = ExistingEntry {
                    data_file,
                    snapshot_id,
                    sequence_number,
                    file_sequence_number: entry.file_sequence_number,
                };
                assert(lifted_entry == lifted(base, entries, n));
                out.push(lifted_entry);
            }
        }
        assert(out@ =~= before + lifted_entries(base, entries, n + 1));
    }
}

} // verus!
