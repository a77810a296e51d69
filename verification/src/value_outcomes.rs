//! What calls on numbers, texts, identifiers and partition tuples return.

use vstd::prelude::*;

use crate::error::{Error, ErrorKind};
use crate::identity::{
    accept_draw, fold_uuid_halves, generate_unique_snapshot_id, hex, hex_digit, uuid_text,
};
use crate::manifest::{ManifestEntry, ManifestFile, ManifestStatus};
use crate::partition::{
    find_partition_fault, validate_partition_value, Literal, PartitionFault, PrimitiveLiteral,
    PrimitiveType, Struct, StructType,
};
use crate::partition_laws::{
    first_refusal, is_accepted, is_form_of, law_key_tells_tuples_apart,
    law_partition_fault_is_the_first, law_primitive_key_tells_values_apart,
    law_type_takes_its_own_form, same_field, same_primitive, same_tuple,
};
use crate::properties::Properties;
use crate::selection_laws::writes;
use crate::table::{ActionCommit, TableMetadata, TableRequirement, TableUpdate};
use crate::text::{decimal_text, join, joined, parse_u64, signed_decimal_text, string_views};
use crate::text_laws::{
    all_digits, law_decimal_has_value, law_parsed_number_is_the_value_of_its_digits,
    law_signed_decimal_has_value, place_value,
};

verus! {

/// A number is written in decimal, without leading zeros.
pub proof fn law_decimal_text(n: u64, r: String)
    requires
        call_ensures(decimal_text, (n,), r),
    ensures
        writes(r@, n as nat),
{
    law_decimal_has_value(n as nat);
}

/// A negative number is written in decimal behind a minus sign, any other as it is.
pub proof fn law_signed_decimal_text(n: i64, r: String)
    requires
        call_ensures(signed_decimal_text, (n,), r),
    ensures
        n >= 0 ==> writes(r@, n as nat),
        n < 0 ==> r@.len() > 0 && r@[0] == '-' && writes(r@.drop_first(), (-n) as nat),
{
    law_signed_decimal_has_value(n as int);
}

/// The digits of a number, behind a plus sign if there is one.
pub open spec fn digits_of(s: Seq<char>) -> Seq<char> {
    if s.len() > 0 && s[0] == '+' {
        s.drop_first()
    } else {
        s
    }
}

/// Whether the text is that of an unsigned 64-bit integer.
pub open spec fn is_number(s: Seq<char>) -> bool {
    &&& digits_of(s).len() > 0
    &&& all_digits(digits_of(s))
    &&& place_value(digits_of(s)) <= 0xffff_ffff_ffff_ffff
}

/// Text is read as a number just when it is one, and as its value.
pub proof fn law_parse_u64(s: &str, r: Option<u64>)
    requires
        call_ensures(parse_u64, (s,), r),
    ensures
        r is Some <==> is_number(s@),
        r matches Some(v) ==> place_value(digits_of(s@)) == v,
{
    law_parsed_number_is_the_value_of_its_digits(s@);
}

/// Joined strings are their texts with the separator between each two.
pub proof fn law_join(strings: &Vec<String>, separator: &str, r: String)
    requires
        call_ensures(join, (strings, separator), r),
    ensures
        strings@.len() == 0 ==> r@.len() == 0,
        strings@.len() == 1 ==> r@ == strings@[0]@,
        strings@.len() > 1 ==> r@ == joined(string_views(strings@.drop_last()), separator@)
            + separator@ + strings@.last()@,
{
    assert(string_views(strings@).len() == strings@.len());
    if strings@.len() > 1 {
        assert(string_views(strings@).drop_last() =~= string_views(strings@.drop_last()));
        assert(string_views(strings@).last() == strings@.last()@);
    }
}

/// The halves of a UUID fold into the magnitude of their exclusive or, taken as a
/// signed integer. Only the smallest integer has none.
pub proof fn law_fold_uuid_halves(lhs: u64, rhs: u64, r: Option<i64>)
    requires
        call_ensures(fold_uuid_halves, (lhs, rhs), r),
    ensures
        r is None <==> lhs ^ rhs == 0x8000_0000_0000_0000,
        r matches Some(id) ==> {
            &&& id >= 0
            &&& (lhs ^ rhs) as int == id || (lhs ^ rhs) as int + id == 0x1_0000_0000_0000_0000
        },
{
    let v = lhs ^ rhs;
    let folded = v as i64;
    assert(v < 0x8000_0000_0000_0000u64 ==> (v as i64) >= 0i64 && (v as i64) as u64 == v)
        by (bit_vector);
    assert(v >= 0x8000_0000_0000_0000u64 ==> (v as i64) == (v - 0x1_0000_0000_0000_0000))
        by (bit_vector);
}

/// A draw is taken just when it folds into an id that is not in use.
pub proof fn law_accept_draw(
    snapshot_ids: &Vec<i64>,
    lhs: u64,
    rhs: u64,
    folded: Option<i64>,
    r: Option<i64>,
)
    requires
        call_ensures(accept_draw, (snapshot_ids, lhs, rhs), r),
        call_ensures(fold_uuid_halves, (lhs, rhs), folded),
    ensures
        r is Some ==> r == folded && !snapshot_ids@.contains(r->0),
        r is None ==> folded is None || snapshot_ids@.contains(folded->0),
{
}

/// A generated id is not negative, and none of those in use.
pub proof fn law_generated_id_is_unused(snapshot_ids: &Vec<i64>, r: i64, i: int)
    requires
        call_ensures(generate_unique_snapshot_id, (snapshot_ids,), r),
    ensures
        r >= 0,
        0 <= i < snapshot_ids@.len() ==> snapshot_ids@[i] != r,
{
}

/// Whether this is the lower-case hexadecimal digit of the number.
pub open spec fn is_hex_digit(c: char, d: nat) -> bool {
    if d < 10 {
        c as int == '0' as int + d
    } else {
        d < 16 && c as int == 'a' as int + (d - 10)
    }
}

proof fn lemma_hex(v: nat, n: nat, k: int)
    requires
        0 <= k < n,
    ensures
        hex(v, n).len() == n,
        is_hex_digit(
            hex(v, n)[k],
            ((v / vstd::arithmetic::power::pow(16, (n - 1 - k) as nat) as nat) % 16) as nat,
        ),
    decreases n,
{
    let before = hex(v / 16, (n - 1) as nat);
    lemma_hex_len(v / 16, (n - 1) as nat);
    let e = (n - 1 - k) as nat;
    vstd::arithmetic::power::lemma_pow_positive(16, e);
    if k == n - 1 {
        vstd::arithmetic::power::lemma_pow0(16);
        assert(v / 1 == v);
        assert(hex(v, n)[k] == hex_digit(v % 16));
    } else {
        lemma_hex(v / 16, (n - 1) as nat, k);
        assert(hex(v, n)[k] == before[k]);
        let rest = (e - 1) as nat;
        vstd::arithmetic::power::lemma_pow_positive(16, rest);
        vstd::arithmetic::power::lemma_pow1(16);
        vstd::arithmetic::power::lemma_pow_adds(16, 1, rest);
        vstd::arithmetic::div_mod::lemma_div_denominator(
            v as int,
            16,
            vstd::arithmetic::power::pow(16, rest),
        );
    }
}

proof fn lemma_hex_len(v: nat, n: nat)
    ensures
        hex(v, n).len() == n,
    decreases n,
{
    if n > 0 {
        lemma_hex_len(v / 16, (n - 1) as nat);
    }
}

/// The place in the text of a UUID of its digit `k`, behind the hyphens before it.
pub open spec fn digit_place(k: int) -> int {
    if k < 8 {
        k
    } else if k < 12 {
        k + 1
    } else if k < 16 {
        k + 2
    } else if k < 20 {
        k + 3
    } else {
        k + 4
    }
}

/// The text of a UUID has 36 characters: hyphens behind 8, 12, 16 and 20 digits,
/// and its 32 hexadecimal digits, from the most significant one on.
pub proof fn law_uuid_text_is_hyphenated_hex(uuid: u128, k: int)
    requires
        0 <= k < 32,
    ensures
        uuid_text(uuid).len() == 36,
        uuid_text(uuid)[8] == '-',
        uuid_text(uuid)[13] == '-',
        uuid_text(uuid)[18] == '-',
        uuid_text(uuid)[23] == '-',
        is_hex_digit(
            uuid_text(uuid)[digit_place(k)],
            ((uuid as nat / vstd::arithmetic::power::pow(16, (31 - k) as nat) as nat) % 16) as nat,
        ),
{
    lemma_hex(uuid as nat, 32, k);
    let digits = hex(uuid as nat, 32);
    assert(uuid_text(uuid)[digit_place(k)] == digits[k]);
}

/// Primitive values are told to be the same just when they are of the same form and
/// have the same content, where zeros count as one number, and so do NaNs.
pub proof fn law_primitive_same(a: &PrimitiveLiteral, b: &PrimitiveLiteral, r: bool)
    requires
        call_ensures(PrimitiveLiteral::same, (a, b), r),
    ensures
        r == same_primitive(*a, *b),
{
    law_primitive_key_tells_values_apart(*a, *b);
}

/// Values are told to be the same just when they are.
pub proof fn law_literal_same(a: &Literal, b: &Literal, r: bool)
    requires
        call_ensures(Literal::same, (a, b), r),
    ensures
        r == same_field(Some(*a), Some(*b)),
{
    if let (Literal::Primitive(x), Literal::Primitive(y)) = (*a, *b) {
        law_primitive_key_tells_values_apart(x, y);
    }
}

/// Tuples are told to be the same just when they hold the same values, field by
/// field.
pub proof fn law_struct_same(a: &Struct, b: &Struct, r: bool)
    requires
        call_ensures(Struct::same, (a, b), r),
    ensures
        r == same_tuple(*a, *b),
{
    law_key_tells_tuples_apart(*a, *b);
}

/// A type is compatible with the literals of the form in which its values are held.
pub proof fn law_compatible(ty: &PrimitiveType, literal: &PrimitiveLiteral, r: bool)
    requires
        call_ensures(PrimitiveType::compatible, (ty, literal), r),
    ensures
        r == is_form_of(*literal, *ty),
{
    law_type_takes_its_own_form(*ty, *literal);
}

/// Whether each field accepts its value, and there is one for each.
pub open spec fn is_tuple_of(value: Struct, ty: StructType) -> bool {
    &&& value.fields@.len() == ty.fields@.len()
    &&& forall|i: int|
        0 <= i < value.fields@.len() ==> is_accepted(#[trigger] value.fields@[i], ty.fields@[i])
}

/// A fault is found just when the tuple is not one of the type: a wrong length, or
/// else that of the first field that does not accept its value.
pub proof fn law_find_partition_fault(
    value: &Struct,
    ty: &StructType,
    r: Option<PartitionFault>,
)
    requires
        call_ensures(find_partition_fault, (value, ty), r),
    ensures
        r is None <==> is_tuple_of(*value, *ty),
        r matches Some(fault) ==> if value.fields@.len() != ty.fields@.len() {
            fault == PartitionFault::WrongLength
        } else {
            exists|i: int| #[trigger] first_refusal(value.fields@, ty.fields@, i, fault)
        },
{
    law_partition_fault_is_the_first(*value, *ty);
    if r is Some && value.fields@.len() == ty.fields@.len() {
        let i = choose|i: int| #[trigger] first_refusal(value.fields@, ty.fields@, i, r->0);
        assert(!is_accepted(value.fields@[i], ty.fields@[i]));
    }
}

/// A tuple is valid just when it is one of the type. Otherwise the error says that
/// the length is wrong, that a field is not primitive or that a value is not one of
/// its field, whichever comes first.
pub proof fn law_validate_partition_value(
    value: &Struct,
    ty: &StructType,
    fault: Option<PartitionFault>,
    r: Result<(), Error>,
)
    requires
        call_ensures(validate_partition_value, (value, ty), r),
        call_ensures(find_partition_fault, (value, ty), fault),
        fault != Some(PartitionFault::NestedValue),
    ensures
        r is Ok <==> is_tuple_of(*value, *ty),
        match fault {
            None => r is Ok,
            Some(PartitionFault::WrongLength) => r matches Err(e) && e.kind
                == ErrorKind::DataInvalid && e.message@
                == "Partition value is not compatible with partition type"@,
            Some(PartitionFault::FieldNotPrimitive) => r matches Err(e) && e.kind
                == ErrorKind::Unexpected && e.message@
                == "Partition field should only be primitive type."@,
            Some(PartitionFault::WrongValue) => r matches Err(e) && e.kind
                == ErrorKind::DataInvalid && e.message@
                == "Partition value is not compatible partition type"@,
            Some(PartitionFault::NestedValue) => false,
        },
{
    law_find_partition_fault(value, ty, fault);
}

/// An entry is live unless it is deleted.
pub proof fn law_is_alive(entry: &ManifestEntry, r: bool)
    requires
        call_ensures(ManifestEntry::is_alive, (entry,), r),
    ensures
        r == (entry.status != ManifestStatus::Deleted),
{
}

/// A manifest may list added or existing files unless it says that it has none.
pub proof fn law_has_files(manifest: &ManifestFile, added: bool, existing: bool)
    requires
        call_ensures(ManifestFile::has_added_files, (manifest,), added),
        call_ensures(ManifestFile::has_existing_files, (manifest,), existing),
    ensures
        added == (manifest.added_files_count != Some(0u32)),
        existing == (manifest.existing_files_count != Some(0u32)),
{
}

/// The number that a property holds is read, where it is set and holds one; the
/// default stands for all else.
pub proof fn law_number_property_or(table: &TableMetadata, key: &str, default: u64, r: u64)
    requires
        call_ensures(TableMetadata::number_property_or, (table, key, default), r),
    ensures
        table.properties@.contains_key(key@) && is_number(table.properties@[key@]) ==> place_value(
            digits_of(table.properties@[key@]),
        ) == r,
        !table.properties@.contains_key(key@) || !is_number(table.properties@[key@]) ==> r
            == default,
{
    law_parsed_number_is_the_value_of_its_digits(table.properties@[key@]);
}

/// The id of the current snapshot is that snapshot's, where there is one.
pub proof fn law_current_snapshot_id(table: &TableMetadata, r: Option<i64>)
    requires
        call_ensures(TableMetadata::current_snapshot_id, (table,), r),
    ensures
        table.current_snapshot is None <==> r is None,
        table.current_snapshot matches Some(snapshot) ==> r == Some(snapshot.snapshot_id),
{
}

/// An action commits what it was made with.
pub proof fn law_action_commit(
    updates: Vec<TableUpdate>,
    requirements: Vec<TableRequirement>,
    r: ActionCommit,
)
    requires
        call_ensures(ActionCommit::new, (updates, requirements), r),
    ensures
        r.updates@ == updates@,
        r.requirements@ == requirements@,
{
}

/// An error has the kind and the message that it was made with.
pub proof fn law_error(kind: ErrorKind, message: &str, r: Error)
    requires
        call_ensures(Error::new, (kind, message), r),
    ensures
        r.kind == kind,
        r.message@ == message@,
{
}

/// A property is found just when it is set, with the value that it has.
pub proof fn law_properties_get(properties: &Properties, key: &str, r: Option<&String>)
    requires
        call_ensures(Properties::get, (properties, key), r),
    ensures
        r is Some <==> properties@.contains_key(key@),
        r matches Some(value) ==> value@ == properties@[key@],
{
}

/// Setting a property changes that property, and no other.
pub proof fn law_properties_insert(
    properties: &mut Properties,
    key: String,
    value: String,
    other: Seq<char>,
    r: (),
)
    requires
        call_ensures(Properties::insert, (properties, key, value), r),
    ensures
        final(properties)@.contains_key(key@),
        final(properties)@[key@] == value@,
        other != key@ ==> {
            &&& final(properties)@.contains_key(other) == old(properties)@.contains_key(other)
            &&& final(properties)@.contains_key(other) ==> final(properties)@[other] == old(
                properties,
            )@[other]
        },
{
}

/// Setting the properties of others leaves those alone that are not among them.
pub proof fn law_properties_extend(
    properties: &mut Properties,
    others: Properties,
    key: Seq<char>,
    r: (),
)
    requires
        call_ensures(Properties::extend, (properties, others), r),
    ensures
        others@.contains_key(key) ==> final(properties)@.contains_key(key)
            && final(properties)@[key] == others@[key],
        !others@.contains_key(key) ==> {
            &&& final(properties)@.contains_key(key) == old(properties)@.contains_key(key)
            &&& final(properties)@.contains_key(key) ==> final(properties)@[key] == old(
                properties,
            )@[key]
        },
{
}

} // verus!
