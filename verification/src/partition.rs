//! Partition tuples: values, types, and when two tuples are the same.

use vstd::prelude::*;

use crate::error::{Error, ErrorKind};

verus! {

/// A value of a primitive type.
///
/// Floating-point values are held by their IEEE 754 bit patterns.
#[derive(Debug, Clone, PartialEq, Eq)]
pub enum PrimitiveLiteral {
    Boolean(bool),
    Int(i32),
    Long(i64),
    Float(u32),
    Double(u64),
    String(String),
    Binary(Vec<u8>),
    Int128(i128),
    UInt128(u128),
    AboveMax,
    BelowMin,
}

/// A value of a field.
#[derive(Debug, Clone, PartialEq, Eq)]
pub enum Literal {
    Primitive(PrimitiveLiteral),
    /// A struct, list or map in its serialised form. No partition field takes one.
    Nested(Vec<u8>),
}

/// A partition tuple: one optional value per partition field.
#[derive(Debug, Clone, PartialEq, Eq)]
pub struct Struct {
    pub fields: Vec<Option<Literal>>,
}

/// What a literal stands for: literals with equal keys are the same value.
pub enum LiteralKey {
    Boolean(bool),
    Int(i32),
    Long(i64),
    Float(u32),
    Double(u64),
    Text(Seq<char>),
    Binary(Seq<u8>),
    Int128(i128),
    UInt128(u128),
    AboveMax,
    BelowMin,
    Nested(Seq<u8>),
}

/// The number of single-precision bit patterns with a clear sign bit.
pub const F32_SIGN: u32 = 0x8000_0000;

/// The single-precision infinity; the magnitudes above it are NaNs.
pub const F32_INFINITY: u32 = 0x7f80_0000;

/// The number of double-precision bit patterns with a clear sign bit.
pub const F64_SIGN: u64 = 0x8000_0000_0000_0000;

/// The double-precision infinity; the magnitudes above it are NaNs.
pub const F64_INFINITY: u64 = 0x7ff0_0000_0000_0000;

/// The two zeros are one value, and so are all NaNs.
pub open spec fn f32_key(bits: u32) -> u32 {
    let magnitude = bits % F32_SIGN;
    if magnitude == 0 {
        0
    } else if magnitude > F32_INFINITY {
        (F32_INFINITY + 1) as u32
    } else {
        bits
    }
}

/// The two zeros are one value, and so are all NaNs.
pub open spec fn f64_key(bits: u64) -> u64 {
    let magnitude = bits % F64_SIGN;
    if magnitude == 0 {
        0
    } else if magnitude > F64_INFINITY {
        (F64_INFINITY + 1) as u64
    } else {
        bits
    }
}

impl PrimitiveLiteral {
    pub open spec fn key(self) -> LiteralKey {
        match self {
            PrimitiveLiteral::Boolean(v) => LiteralKey::Boolean(v),
            PrimitiveLiteral::Int(v) => LiteralKey::Int(v),
            PrimitiveLiteral::Long(v) => LiteralKey::Long(v),
            PrimitiveLiteral::Float(bits) => LiteralKey::Float(f32_key(bits)),
            PrimitiveLiteral::Double(bits) => LiteralKey::Double(f64_key(bits)),
            PrimitiveLiteral::String(v) => LiteralKey::Text(v@),
            PrimitiveLiteral::Binary(v) => LiteralKey::Binary(v@),
            PrimitiveLiteral::Int128(v) => LiteralKey::Int128(v),
            PrimitiveLiteral::UInt128(v) => LiteralKey::UInt128(v),
            PrimitiveLiteral::AboveMax => LiteralKey::AboveMax,
            PrimitiveLiteral::BelowMin => LiteralKey::BelowMin,
        }
    }

    /// Whether the two literals are the same value.
    pub fn same(&self, other: &PrimitiveLiteral) -> (r: bool)
        ensures
            r == (self.key() == other.key()),
    {
        match (self, other) {
            (PrimitiveLiteral::Boolean(a), PrimitiveLiteral::Boolean(b)) => *a == *b,
            (PrimitiveLiteral::Int(a), PrimitiveLiteral::Int(b)) => *a == *b,
            (PrimitiveLiteral::Long(a), PrimitiveLiteral::Long(b)) => *a == *b,
            (PrimitiveLiteral::Float(a), PrimitiveLiteral::Float(b)) => {
                canonical_f32(*a) == canonical_f32(*b)
            },
            (PrimitiveLiteral::Double(a), PrimitiveLiteral::Double(b)) => {
                canonical_f64(*a) == canonical_f64(*b)
            },
            (PrimitiveLiteral::String(a), PrimitiveLiteral::String(b)) => *a == *b,
            (PrimitiveLiteral::Binary(a), PrimitiveLiteral::Binary(b)) => same_bytes(a, b),
            (PrimitiveLiteral::Int128(a), PrimitiveLiteral::Int128(b)) => *a == *b,
            (PrimitiveLiteral::UInt128(a), PrimitiveLiteral::UInt128(b)) => *a == *b,
            (PrimitiveLiteral::AboveMax, PrimitiveLiteral::AboveMax) => true,
            (PrimitiveLiteral::BelowMin, PrimitiveLiteral::BelowMin) => true,
            _ => false,
        }
    }
}

fn canonical_f32(bits: u32) -> (r: u32)
    ensures
        r == f32_key(bits),
{
    let magnitude: u32 = bits % F32_SIGN;
    if magnitude == 0 {
        0
    } else if magnitude > F32_INFINITY {
        F32_INFINITY + 1
    } else {
        bits
    }
}

fn canonical_f64(bits: u64) -> (r: u64)
    ensures
        r == f64_key(bits),
{
    let magnitude: u64 = bits % F64_SIGN;
    if magnitude == 0 {
        0
    } else if magnitude > F64_INFINITY {
        F64_INFINITY + 1
    } else {
        bits
    }
}

fn same_bytes(a: &Vec<u8>, b: &Vec<u8>) -> (r: bool)
    ensures
        r == (a@ == b@),
{
    if a.len() != b.len() {
        return false;
    }
    for i in 0..a.len()
        invariant
            a.len() == b.len(),
            forall|j: int| 0 <= j < i ==> a@[j] == b@[j],
    {
        if a[i] != b[i] {
            return false;
        }
    }
    assert(a@ =~= b@);
    true
}

impl Literal {
    pub open spec fn key(self) -> LiteralKey {
        match self {
            Literal::Primitive(v) => v.key(),
            Literal::Nested(bytes) => LiteralKey::Nested(bytes@),
        }
    }

    /// Whether the two literals are the same value.
    pub fn same(&self, other: &Literal) -> (r: bool)
        ensures
            r == (self.key() == other.key()),
    {
        match (self, other) {
            (Literal::Primitive(a), Literal::Primitive(b)) => a.same(b),
            (Literal::Nested(a), Literal::Nested(b)) => same_bytes(a, b),
            _ => false,
        }
    }
}

/// What an optional value stands for.
pub open spec fn field_key(field: Option<Literal>) -> Option<LiteralKey> {
    match field {
        Some(value) => Some(value.key()),
        None => None,
    }
}

impl Struct {
    /// What the tuple stands for: tuples with equal keys are the same partition.
    pub open spec fn key(self) -> Seq<Option<LiteralKey>> {
        self.fields@.map_values(|f: Option<Literal>| field_key(f))
    }

    /// Whether the two tuples are the same partition.
    pub fn same(&self, other: &Struct) -> (r: bool)
        ensures
            r == (self.key() == other.key()),
    {
        if self.fields.len() != other.fields.len() {
            assert(self.key().len() != other.key().len());
            return false;
        }
        for i in 0..self.fields.len()
            invariant
                self.fields.len() == other.fields.len(),
                forall|j: int| 0 <= j < i ==> self.key()[j] == other.key()[j],
        {
            let equal = match (&self.fields[i], &other.fields[i]) {
                (Some(a), Some(b)) => a.same(b),
                (None, None) => true,
                _ => false,
            };
            assert(equal == (self.key()[i as int] == other.key()[i as int]));
            if !equal {
                return false;
            }
        }
        assert(self.key() =~= other.key());
        true
    }
}

/// A primitive type.
#[derive(Debug, Clone, Copy, PartialEq, Eq, Structural)]
pub enum PrimitiveType {
    Boolean,
    Int,
    Long,
    Float,
    Double,
    Decimal { precision: u32, scale: u32 },
    Date,
    Time,
    Timestamp,
    Timestamptz,
    TimestampNs,
    TimestamptzNs,
    String,
    Uuid,
    Fixed(u64),
    Binary,
}

/// The type of a field.
#[derive(Debug, Clone, Copy, PartialEq, Eq, Structural)]
pub enum Type {
    Primitive(PrimitiveType),
    /// A struct, list or map type. No partition field has one.
    Nested,
}

/// The type of a partition tuple: one type per partition field.
#[derive(Debug, Clone, PartialEq, Eq)]
pub struct StructType {
    pub fields: Vec<Type>,
}

impl PrimitiveType {
    /// Whether a literal of this form can be a value of the type.
    pub open spec fn takes(self, literal: PrimitiveLiteral) -> bool {
        match literal {
            PrimitiveLiteral::Boolean(_) => self is Boolean,
            PrimitiveLiteral::Int(_) => self is Int || self is Date,
            PrimitiveLiteral::Long(_) => {
                ||| self is Long
                ||| self is Time
                ||| self is Timestamp
                ||| self is Timestamptz
                ||| self is TimestampNs
                ||| self is TimestamptzNs
            },
            PrimitiveLiteral::Float(_) => self is Float,
            PrimitiveLiteral::Double(_) => self is Double,
            PrimitiveLiteral::String(_) => self is String,
            PrimitiveLiteral::Binary(_) => self is Fixed || self is Binary,
            PrimitiveLiteral::Int128(_) => self is Decimal,
            PrimitiveLiteral::UInt128(_) => self is Uuid,
            PrimitiveLiteral::AboveMax | PrimitiveLiteral::BelowMin => false,
        }
    }

    /// Whether the literal can be a value of the type.
    pub fn compatible(&self, literal: &PrimitiveLiteral) -> (r: bool)
        ensures
            r == self.takes(*literal),
    {
        match (self, literal) {
            (PrimitiveType::Boolean, PrimitiveLiteral::Boolean(_)) => true,
            (PrimitiveType::Int | PrimitiveType::Date, PrimitiveLiteral::Int(_)) => true,
            (
                PrimitiveType::Long | PrimitiveType::Time | PrimitiveType::Timestamp
                | PrimitiveType::Timestamptz | PrimitiveType::TimestampNs
                | PrimitiveType::TimestamptzNs,
                PrimitiveLiteral::Long(_),
            ) => true,
            (PrimitiveType::Float, PrimitiveLiteral::Float(_)) => true,
            (PrimitiveType::Double, PrimitiveLiteral::Double(_)) => true,
            (PrimitiveType::String, PrimitiveLiteral::String(_)) => true,
            (
                PrimitiveType::Fixed(_) | PrimitiveType::Binary,
                PrimitiveLiteral::Binary(_),
            ) => true,
            (PrimitiveType::Decimal { .. }, PrimitiveLiteral::Int128(_)) => true,
            (PrimitiveType::Uuid, PrimitiveLiteral::UInt128(_)) => true,
            _ => false,
        }
    }
}

/// What is wrong with a partition tuple.
#[derive(Debug, Clone, Copy, PartialEq, Eq, Structural)]
pub enum PartitionFault {
    /// The tuple has more or fewer values than the type has fields.
    WrongLength,
    /// A partition field is not of a primitive type.
    FieldNotPrimitive,
    /// A value is not one of its field's type.
    WrongValue,
    /// A value is not primitive at all: no partition tuple holds such a value.
    NestedValue,
}

/// What is wrong with the value of one field.
pub open spec fn field_fault(value: Option<Literal>, field: Type) -> Option<PartitionFault> {
    match field {
        Type::Nested => Some(PartitionFault::FieldNotPrimitive),
        Type::Primitive(ty) => match value {
            None => None,
            Some(Literal::Nested(_)) => Some(PartitionFault::NestedValue),
            Some(Literal::Primitive(literal)) => if ty.takes(literal) {
                None
            } else {
                Some(PartitionFault::WrongValue)
            },
        },
    }
}

/// The first fault among the first `n` fields.
pub open spec fn first_field_fault(
    values: Seq<Option<Literal>>,
    fields: Seq<Type>,
    n: int,
) -> Option<PartitionFault>
    decreases n,
{
    if n <= 0 {
        None
    } else {
        match first_field_fault(values, fields, n - 1) {
            Some(fault) => Some(fault),
            None => field_fault(values[n - 1], fields[n - 1]),
        }
    }
}

/// The first thing that is wrong with a partition tuple.
pub open spec fn partition_fault(value: Struct, ty: StructType) -> Option<PartitionFault> {
    if value.fields@.len() != ty.fields@.len() {
        Some(PartitionFault::WrongLength)
    } else {
        first_field_fault(value.fields@, ty.fields@, value.fields@.len() as int)
    }
}

proof fn lemma_first_field_fault_stays(
    values: Seq<Option<Literal>>,
    fields: Seq<Type>,
    n: int,
    m: int,
)
    requires
        n <= m,
        first_field_fault(values, fields, n) is Some,
    ensures
        first_field_fault(values, fields, m) == first_field_fault(values, fields, n),
    decreases m - n,
{
    if n < m {
        lemma_first_field_fault_stays(values, fields, n, m - 1);
    }
}

/// Finds the first thing that is wrong with a partition tuple.
pub fn find_partition_fault(value: &Struct, ty: &StructType) -> (r: Option<PartitionFault>)
    ensures
        r == partition_fault(*value, *ty),
{
    if value.fields.len() != ty.fields.len() {
        return Some(PartitionFault::WrongLength);
    }
    for i in 0..value.fields.len()
        invariant
            value.fields@.len() == ty.fields@.len(),
            first_field_fault(value.fields@, ty.fields@, i as int) is None,
    {
        let fault: Option<PartitionFault> = match &ty.fields[i] {
            Type::Nested => Some(PartitionFault::FieldNotPrimitive),
            Type::Primitive(field) => match &value.fields[i] {
                None => None,
                Some(Literal::Nested(_)) => Some(PartitionFault::NestedValue),
                Some(Literal::Primitive(literal)) => if field.compatible(literal) {
                    None
                } else {
                    Some(PartitionFault::WrongValue)
                },
            },
        };
        if fault.is_some() {
            proof {
                lemma_first_field_fault_stays(
                    value.fields@,
                    ty.fields@,
                    i + 1,
                    value.fields@.len() as int,
                );
            }
            return fault;
        }
    }
    None
}

/// Whether the error is the one for this fault.
pub open spec fn reports_partition_fault(error: Error, fault: PartitionFault) -> bool {
    match fault {
        PartitionFault::WrongLength => error.says(
            ErrorKind::DataInvalid,
            "Partition value is not compatible with partition type"@,
        ),
        PartitionFault::FieldNotPrimitive => error.says(
            ErrorKind::Unexpected,
            "Partition field should only be primitive type."@,
        ),
        PartitionFault::WrongValue => error.says(
            ErrorKind::DataInvalid,
            "Partition value is not compatible partition type"@,
        ),
        PartitionFault::NestedValue => false,
    }
}

/// The error for a fault.
pub(crate) fn partition_error(fault: PartitionFault) -> (r: Error)
    requires
        fault != PartitionFault::NestedValue,
    ensures
        reports_partition_fault(r, fault),
{
    match fault {
        PartitionFault::WrongLength => Error::new(
            ErrorKind::DataInvalid,
            "Partition value is not compatible with partition type",
        ),
        PartitionFault::FieldNotPrimitive => Error::new(
            ErrorKind::Unexpected,
            "Partition field should only be primitive type.",
        ),
        PartitionFault::WrongValue | PartitionFault::NestedValue => Error::new(
            ErrorKind::DataInvalid,
            "Partition value is not compatible partition type",
        ),
    }
}

/// Checks that a partition tuple is one of the given type.
pub fn validate_partition_value(
    partition_value: &Struct,
    partition_type: &StructType,
) -> (r: Result<(), Error>)
    requires
        partition_fault(*partition_value, *partition_type) != Some(PartitionFault::NestedValue),
    ensures
        match r {
            Ok(()) => partition_fault(*partition_value, *partition_type) is None,
            Err(error) => partition_fault(*partition_value, *partition_type) matches Some(fault)
                && reports_partition_fault(error, fault),
        },
{
    match find_partition_fault(partition_value, partition_type) {
        None => Ok(()),
        Some(fault) => Err(partition_error(fault)),
    }
}

} // verus!
