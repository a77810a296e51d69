//! What holds of partition tuples: which of them are the same partition, and which
//! are accepted.

use vstd::prelude::*;

use crate::partition::{
    field_fault, first_field_fault, partition_fault, Literal, PartitionFault, PrimitiveLiteral,
    PrimitiveType, Struct, StructType, Type,
};

verus! {

/// Whether the single-precision bit pattern is a zero, of either sign.
pub open spec fn is_f32_zero(bits: u32) -> bool {
    bits == 0 || bits == 0x8000_0000
}

/// Whether the single-precision bit pattern is a NaN, of either sign.
pub open spec fn is_f32_nan(bits: u32) -> bool {
    0x7f80_0000 < bits <= 0x7fff_ffff || 0xff80_0000 < bits <= 0xffff_ffff
}

/// Whether the double-precision bit pattern is a zero, of either sign.
pub open spec fn is_f64_zero(bits: u64) -> bool {
    bits == 0 || bits == 0x8000_0000_0000_0000
}

/// Whether the double-precision bit pattern is a NaN, of either sign.
pub open spec fn is_f64_nan(bits: u64) -> bool {
    0x7ff0_0000_0000_0000 < bits <= 0x7fff_ffff_ffff_ffff || 0xfff0_0000_0000_0000 < bits
        <= 0xffff_ffff_ffff_ffff
}

/// Whether two primitive values are one: of the same form and with the same
/// content, where the two zeros count as the same number, and so do all NaNs.
pub open spec fn same_primitive(a: PrimitiveLiteral, b: PrimitiveLiteral) -> bool {
    match (a, b) {
        (PrimitiveLiteral::Boolean(x), PrimitiveLiteral::Boolean(y)) => x == y,
        (PrimitiveLiteral::Int(x), PrimitiveLiteral::Int(y)) => x == y,
        (PrimitiveLiteral::Long(x), PrimitiveLiteral::Long(y)) => x == y,
        (PrimitiveLiteral::Float(x), PrimitiveLiteral::Float(y)) => x == y || (is_f32_zero(x)
            && is_f32_zero(y)) || (is_f32_nan(x) && is_f32_nan(y)),
        (PrimitiveLiteral::Double(x), PrimitiveLiteral::Double(y)) => x == y || (is_f64_zero(x)
            && is_f64_zero(y)) || (is_f64_nan(x) && is_f64_nan(y)),
        (PrimitiveLiteral::String(x), PrimitiveLiteral::String(y)) => x@ == y@,
        (PrimitiveLiteral::Binary(x), PrimitiveLiteral::Binary(y)) => x@ == y@,
        (PrimitiveLiteral::Int128(x), PrimitiveLiteral::Int128(y)) => x == y,
        (PrimitiveLiteral::UInt128(x), PrimitiveLiteral::UInt128(y)) => x == y,
        (PrimitiveLiteral::AboveMax, PrimitiveLiteral::AboveMax) => true,
        (PrimitiveLiteral::BelowMin, PrimitiveLiteral::BelowMin) => true,
        _ => false,
    }
}

/// Whether two optional values are one.
pub open spec fn same_field(a: Option<Literal>, b: Option<Literal>) -> bool {
    match (a, b) {
        (None, None) => true,
        (Some(Literal::Primitive(x)), Some(Literal::Primitive(y))) => same_primitive(x, y),
        (Some(Literal::Nested(x)), Some(Literal::Nested(y))) => x@ == y@,
        _ => false,
    }
}

/// Whether two tuples hold the same values, field by field.
pub open spec fn same_tuple(a: Struct, b: Struct) -> bool {
    &&& a.fields@.len() == b.fields@.len()
    &&& forall|i: int|
        0 <= i < a.fields@.len() ==> same_field(#[trigger] a.fields@[i], b.fields@[i])
}

/// Primitive values have the same key just when they are one value.
pub proof fn law_primitive_key_tells_values_apart(a: PrimitiveLiteral, b: PrimitiveLiteral)
    ensures
        a.key() == b.key() <==> same_primitive(a, b),
{
}

/// Partition tuples have the same key just when they hold the same values, field by
/// field.
pub proof fn law_key_tells_tuples_apart(a: Struct, b: Struct)
    ensures
        a.key() == b.key() <==> same_tuple(a, b),
{
    assert(a.key().len() == a.fields@.len());
    assert(b.key().len() == b.fields@.len());
    assert forall|i: int| 0 <= i < a.fields@.len() && i < b.fields@.len() implies (a.key()[i]
        == b.key()[i] <==> same_field(#[trigger] a.fields@[i], b.fields@[i])) by {
        match (a.fields@[i], b.fields@[i]) {
            (Some(Literal::Primitive(x)), Some(Literal::Primitive(y))) => {
                law_primitive_key_tells_values_apart(x, y);
            },
            _ => {},
        }
    }
    if same_tuple(a, b) {
        assert forall|i: int| 0 <= i < a.key().len() implies a.key()[i] == b.key()[i] by {
            assert(same_field(a.fields@[i], b.fields@[i]));
        }
        assert(a.key() =~= b.key());
    }
    if a.key() == b.key() {
        assert forall|i: int| 0 <= i < a.fields@.len() implies same_field(
            #[trigger] a.fields@[i],
            b.fields@[i],
        ) by {
            assert(a.key()[i] == b.key()[i]);
        }
    }
}

/// Whether a literal has the form in which values of the type are held.
pub open spec fn is_form_of(literal: PrimitiveLiteral, ty: PrimitiveType) -> bool {
    match ty {
        PrimitiveType::Boolean => literal is Boolean,
        PrimitiveType::Int => literal is Int,
        PrimitiveType::Long => literal is Long,
        PrimitiveType::Float => literal is Float,
        PrimitiveType::Double => literal is Double,
        PrimitiveType::Decimal { precision: _, scale: _ } => literal is Int128,
        PrimitiveType::Date => literal is Int,
        PrimitiveType::Time => literal is Long,
        PrimitiveType::Timestamp => literal is Long,
        PrimitiveType::Timestamptz => literal is Long,
        PrimitiveType::TimestampNs => literal is Long,
        PrimitiveType::TimestamptzNs => literal is Long,
        PrimitiveType::String => literal is String,
        PrimitiveType::Uuid => literal is UInt128,
        PrimitiveType::Fixed(_) => literal is Binary,
        PrimitiveType::Binary => literal is Binary,
    }
}

/// A type takes the literals of the form in which its values are held, and no
/// others.
pub proof fn law_type_takes_its_own_form(ty: PrimitiveType, literal: PrimitiveLiteral)
    ensures
        ty.takes(literal) <==> is_form_of(literal, ty),
{
}

/// Whether a field accepts a value: it is of a primitive type, and the value is
/// null or a literal of that type's form.
pub open spec fn is_accepted(value: Option<Literal>, field: Type) -> bool {
    match (value, field) {
        (_, Type::Nested) => false,
        (None, Type::Primitive(_)) => true,
        (Some(Literal::Primitive(literal)), Type::Primitive(ty)) => is_form_of(literal, ty),
        (Some(Literal::Nested(_)), Type::Primitive(_)) => false,
    }
}

/// Whether this is what is wrong with a value that a field does not accept.
pub open spec fn is_refused_for(
    value: Option<Literal>,
    field: Type,
    fault: PartitionFault,
) -> bool {
    match fault {
        PartitionFault::WrongLength => false,
        PartitionFault::FieldNotPrimitive => field is Nested,
        PartitionFault::NestedValue => field is Primitive && value matches Some(Literal::Nested(_)),
        PartitionFault::WrongValue => {
            &&& field matches Type::Primitive(ty)
            &&& value matches Some(Literal::Primitive(literal))
            &&& !is_form_of(literal, ty)
        },
    }
}

proof fn lemma_field_fault(value: Option<Literal>, field: Type)
    ensures
        match field_fault(value, field) {
            None => is_accepted(value, field),
            Some(fault) => !is_accepted(value, field) && is_refused_for(value, field, fault),
        },
{
    if let (Some(Literal::Primitive(literal)), Type::Primitive(ty)) = (value, field) {
        law_type_takes_its_own_form(ty, literal);
    }
}

/// Whether the field at this place is the first not to accept its value, for this
/// reason.
pub open spec fn first_refusal(
    values: Seq<Option<Literal>>,
    fields: Seq<Type>,
    i: int,
    fault: PartitionFault,
) -> bool {
    &&& 0 <= i < values.len()
    &&& is_refused_for(values[i], fields[i], fault)
    &&& forall|j: int| 0 <= j < i ==> is_accepted(#[trigger] values[j], fields[j])
}

proof fn lemma_first_field_fault(values: Seq<Option<Literal>>, fields: Seq<Type>, n: int)
    requires
        0 <= n <= values.len(),
    ensures
        match first_field_fault(values, fields, n) {
            None => forall|j: int| 0 <= j < n ==> is_accepted(#[trigger] values[j], fields[j]),
            Some(fault) => exists|i: int|
                i < n && #[trigger] first_refusal(values, fields, i, fault),
        },
    decreases n,
{
    if n > 0 {
        lemma_first_field_fault(values, fields, n - 1);
        lemma_field_fault(values[n - 1], fields[n - 1]);
        if first_field_fault(values, fields, n - 1) is None {
            if let Some(fault) = field_fault(values[n - 1], fields[n - 1]) {
                assert(first_refusal(values, fields, n - 1, fault));
            }
        } else {
            let fault = first_field_fault(values, fields, n - 1)->0;
            let i = choose|i: int|
                i < n - 1 && #[trigger] first_refusal(values, fields, i, fault);
            assert(i < n && first_refusal(values, fields, i, fault));
        }
    }
}

/// A partition tuple has no fault just when it has as many values as the type has
/// fields, and each field accepts its value. Otherwise the fault is a wrong length,
/// or else that of the first field that does not accept its value.
pub proof fn law_partition_fault_is_the_first(value: Struct, ty: StructType)
    ensures
        match partition_fault(value, ty) {
            None => {
                &&& value.fields@.len() == ty.fields@.len()
                &&& forall|i: int|
                    0 <= i < value.fields@.len() ==> is_accepted(
                        #[trigger] value.fields@[i],
                        ty.fields@[i],
                    )
            },
            Some(fault) => if value.fields@.len() != ty.fields@.len() {
                fault == PartitionFault::WrongLength
            } else {
                exists|i: int| #[trigger] first_refusal(value.fields@, ty.fields@, i, fault)
            },
        },
{
    lemma_first_field_fault(value.fields@, ty.fields@, value.fields@.len() as int);
}

} // verus!
