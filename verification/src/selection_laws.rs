//! What holds of the selection of manifests, and of what it comes to.

use vstd::arithmetic::div_mod::lemma_fundamental_div_mod;
use vstd::prelude::*;

use crate::manifest::{FormatVersion, ManifestContentType, ManifestFile};
use crate::rewrite_manifests::{
    average_entry_size, is_rewritable, nothing_to_do, rewrite_properties, sums_fit, to_keep,
    to_rewrite, total_entries, total_size, with_row_id, RewriteManifestsAction,
};
use crate::table::number_property;
use crate::text_laws::{all_digits, law_decimal_has_value, place_value};

verus! {

/// Whether a manifest is one that a rewrite takes up, by what it says of itself: it
/// lists data files, of the default partition spec, and does not say that it has
/// neither added nor existing ones.
pub open spec fn lists_live_data(manifest: ManifestFile, default_spec_id: i32) -> bool {
    &&& manifest.content == ManifestContentType::Data
    &&& manifest.partition_spec_id == default_spec_id
    &&& !(manifest.added_files_count == Some(0u32) && manifest.existing_files_count == Some(0u32))
}

proof fn lemma_rewritable(manifest: ManifestFile, default_spec_id: i32)
    ensures
        is_rewritable(manifest, default_spec_id) <==> lists_live_data(manifest, default_spec_id),
{
}

/// Every manifest of the list that may hold live data of the default partition spec
/// is rewritten and not kept, whatever else it says; every other is kept and not
/// rewritten. Nothing comes in that was not in the list.
pub proof fn law_selection_is_complete(
    manifests: Seq<ManifestFile>,
    default_spec_id: i32,
    m: ManifestFile,
)
    ensures
        to_rewrite(manifests, default_spec_id).contains(m) <==> manifests.contains(m)
            && lists_live_data(m, default_spec_id),
        to_keep(manifests, default_spec_id).contains(m) <==> manifests.contains(m)
            && !lists_live_data(m, default_spec_id),
{
    broadcast use vstd::seq_lib::group_filter_ensures;

    let chosen = |m: ManifestFile| is_rewritable(m, default_spec_id);
    let others = |m: ManifestFile| !is_rewritable(m, default_spec_id);
    lemma_rewritable(m, default_spec_id);
    if manifests.contains(m) {
        let i = choose|i: int| 0 <= i < manifests.len() && manifests[i] == m;
        if is_rewritable(m, default_spec_id) {
            manifests.lemma_filter_contains(chosen, i);
        } else {
            manifests.lemma_filter_contains(others, i);
        }
    }
    if to_rewrite(manifests, default_spec_id).contains(m) {
        manifests.lemma_filter_contains_rev(chosen, m);
    }
    if to_keep(manifests, default_spec_id).contains(m) {
        manifests.lemma_filter_contains_rev(others, m);
    }
}

/// Manifests are rewritten and kept in the order of the list, each as often as it is
/// there: one more at the end of the list is one more at the end of the manifests to
/// rewrite or of those to keep.
pub proof fn law_selection_keeps_order(
    manifests: Seq<ManifestFile>,
    default_spec_id: i32,
    m: ManifestFile,
)
    ensures
        to_rewrite(Seq::empty(), default_spec_id).len() == 0,
        to_keep(Seq::empty(), default_spec_id).len() == 0,
        lists_live_data(m, default_spec_id) ==> {
            &&& to_rewrite(manifests.push(m), default_spec_id) == to_rewrite(
                manifests,
                default_spec_id,
            ).push(m)
            &&& to_keep(manifests.push(m), default_spec_id) == to_keep(manifests, default_spec_id)
        },
        !lists_live_data(m, default_spec_id) ==> {
            &&& to_rewrite(manifests.push(m), default_spec_id) == to_rewrite(
                manifests,
                default_spec_id,
            )
            &&& to_keep(manifests.push(m), default_spec_id) == to_keep(
                manifests,
                default_spec_id,
            ).push(m)
        },
{
    reveal(Seq::filter);
    lemma_rewritable(m, default_spec_id);
    manifests.lemma_filter_push(m, |m: ManifestFile| is_rewritable(m, default_spec_id));
    manifests.lemma_filter_push(m, |m: ManifestFile| !is_rewritable(m, default_spec_id));
}

/// One more manifest adds its length to the size, unless that is negative, and its
/// added and existing files to the entries, as far as they are known.
pub proof fn law_sums_add_up(manifests: Seq<ManifestFile>, m: ManifestFile)
    ensures
        total_size(Seq::empty()) == 0,
        total_entries(Seq::empty()) == 0,
        m.manifest_length >= 0 ==> total_size(manifests.push(m)) == total_size(manifests)
            + m.manifest_length,
        m.manifest_length < 0 ==> total_size(manifests.push(m)) == total_size(manifests),
        total_entries(manifests.push(m)) == total_entries(manifests) + (match m.added_files_count {
            Some(n) => n as int,
            None => 0,
        }) + (match m.existing_files_count {
            Some(n) => n as int,
            None => 0,
        }),
{
    assert(manifests.push(m).drop_last() =~= manifests);
}

/// Sums fit just when both the size and the entries of the manifests to rewrite are
/// 64-bit integers.
pub proof fn law_sums_fit_64_bits(manifests: Seq<ManifestFile>, default_spec_id: i32)
    ensures
        sums_fit(manifests, default_spec_id) <==> {
            let selected = to_rewrite(manifests, default_spec_id);
            total_size(selected) <= 0xffff_ffff_ffff_ffff && total_entries(selected)
                <= 0xffff_ffff_ffff_ffff
        },
{
}

/// The entry size is the whole number of bytes that the manifests have for each of
/// their entries, or one where they have less. Without entries it is 256.
pub proof fn law_entry_size_is_the_average(manifests: Seq<ManifestFile>)
    ensures
        ({
            let size = average_entry_size(manifests);
            let bytes = total_size(manifests);
            let entries = total_entries(manifests);
            &&& entries == 0 ==> size == 256
            &&& entries > 0 && bytes < entries ==> size == 1
            &&& entries > 0 && bytes >= entries ==> size * entries <= bytes && bytes < (size + 1)
                * entries
        }),
{
    let bytes = total_size(manifests) as int;
    let entries = total_entries(manifests) as int;
    if entries > 0 && bytes >= entries {
        lemma_fundamental_div_mod(bytes, entries);
        let q = bytes / entries;
        vstd::arithmetic::div_mod::lemma_mod_bound(bytes, entries);
        assert(q * entries == entries * q) by (nonlinear_arith);
        assert((q + 1) * entries == q * entries + entries) by (nonlinear_arith);
    }
}

/// There is nothing to do without a manifest to rewrite, or with a single one that
/// is not larger than the target. There is with two, whatever their sizes.
pub proof fn law_nothing_to_do_with_one_that_fits(
    m: ManifestFile,
    selected: Seq<ManifestFile>,
    target_size_bytes: u64,
)
    ensures
        nothing_to_do(Seq::empty(), target_size_bytes),
        nothing_to_do(seq![m], target_size_bytes) <==> m.manifest_length <= target_size_bytes,
        selected.len() >= 2 ==> !nothing_to_do(selected, target_size_bytes),
{
    law_sums_add_up(Seq::empty(), m);
    assert(Seq::empty().push(m) =~= seq![m]);
}

/// The target is what the action was told, or else what the table's property
/// "commit.manifest.target-size-bytes" says, or else eight mebibytes.
pub proof fn law_target_size(
    action: RewriteManifestsAction,
    properties: Map<Seq<char>, Seq<char>>,
)
    ensures
        action.target_size_bytes matches Some(size) ==> action.target_size(properties) == size,
        action.target_size_bytes is None ==> action.target_size(properties) == number_property(
            properties,
            "commit.manifest.target-size-bytes"@,
            8_388_608,
        ),
{
}

/// In the third format version a written manifest gets the row id that it was
/// planned with, and keeps all else. Before that it stays as it was written.
pub proof fn law_only_the_row_id_is_set(
    manifest: ManifestFile,
    version: FormatVersion,
    row_id: Option<u64>,
)
    ensures
        version == FormatVersion::V3 ==> {
            let m = with_row_id(manifest, version, row_id);
            &&& m.first_row_id == row_id
            &&& m.manifest_path == manifest.manifest_path
            &&& m.manifest_length == manifest.manifest_length
            &&& m.partition_spec_id == manifest.partition_spec_id
            &&& m.content == manifest.content
            &&& m.sequence_number == manifest.sequence_number
            &&& m.min_sequence_number == manifest.min_sequence_number
            &&& m.added_snapshot_id == manifest.added_snapshot_id
            &&& m.added_files_count == manifest.added_files_count
            &&& m.existing_files_count == manifest.existing_files_count
            &&& m.deleted_files_count == manifest.deleted_files_count
            &&& m.added_rows_count == manifest.added_rows_count
            &&& m.existing_rows_count == manifest.existing_rows_count
            &&& m.deleted_rows_count == manifest.deleted_rows_count
            &&& m.details == manifest.details
        },
        version == FormatVersion::V1 || version == FormatVersion::V2 ==> with_row_id(
            manifest,
            version,
            row_id,
        ) == manifest,
{
}

/// Whether the text is the number in decimal, without leading zeros.
pub open spec fn writes(s: Seq<char>, n: nat) -> bool {
    &&& s.len() > 0
    &&& all_digits(s)
    &&& place_value(s) == n
    &&& s.len() > 1 ==> s[0] != '0'
}

proof fn lemma_decimal_writes(n: nat)
    ensures
        writes(crate::text::decimal(n), n),
{
    law_decimal_has_value(n);
}

/// The summary of a rewrite says just four things: how many manifests were created,
/// replaced and kept, and how many entries were processed, each in decimal.
pub proof fn law_rewrite_reports_four_counts(
    created: nat,
    replaced: nat,
    kept: nat,
    entries: nat,
    key: Seq<char>,
)
    ensures
        ({
            let properties = rewrite_properties(created, replaced, kept, entries);
            if key == "manifests-created"@ {
                properties.contains_key(key) && writes(properties[key], created)
            } else if key == "manifests-replaced"@ {
                properties.contains_key(key) && writes(properties[key], replaced)
            } else if key == "manifests-kept"@ {
                properties.contains_key(key) && writes(properties[key], kept)
            } else if key == "entries-processed"@ {
                properties.contains_key(key) && writes(properties[key], entries)
            } else {
                !properties.contains_key(key)
            }
        }),
{
    lemma_decimal_writes(created);
    lemma_decimal_writes(replaced);
    lemma_decimal_writes(kept);
    lemma_decimal_writes(entries);
    reveal_strlit("manifests-created");
    reveal_strlit("manifests-replaced");
    reveal_strlit("manifests-kept");
    reveal_strlit("entries-processed");
    assert("manifests-created"@[0] == 'm');
    assert("entries-processed"@[0] == 'e');
    assert("manifests-created"@.len() == 17);
    assert("manifests-replaced"@.len() == 18);
    assert("manifests-kept"@.len() == 14);
}

} // verus!
