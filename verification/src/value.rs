//! The generic, engine-agnostic value: what every native cell is normalized
//! into. Doubles are carried as their IEEE-754 bit pattern so that the whole
//! normalization logic is exact integer logic; the driver edge converts.

use vstd::prelude::*;

verus! {

/// The exponent field of an IEEE-754 double, all ones for NaN and infinities.
pub const DOUBLE_EXP_MASK: u64 = 0x7FF0_0000_0000_0000;

/// The mantissa field of an IEEE-754 double.
pub const DOUBLE_MANTISSA_MASK: u64 = 0x000F_FFFF_FFFF_FFFF;

/// The sign bit of an IEEE-754 double.
pub const DOUBLE_SIGN_MASK: u64 = 0x8000_0000_0000_0000;

/// One normalized cell: null, boolean, 64-bit integer, double (as bits),
/// string, array or object.
#[derive(Debug, PartialEq, Eq)]
pub enum Value {
    Null,
    Bool(bool),
    Int(i64),
    /// Bit pattern of a finite IEEE-754 double; non-finite patterns never
    /// appear in a normalized result, they degrade to strings instead.
    Double(u64),
    Str(String),
    Array(Vec<Value>),
    Object(Vec<(String, Value)>),
}

/// The bit pattern encodes a finite double (exponent not all ones).
pub open spec fn double_bits_finite(bits: u64) -> bool {
    bits & DOUBLE_EXP_MASK != DOUBLE_EXP_MASK
}

/// Executable test for `double_bits_finite`.
pub fn double_bits_finite_exec(bits: u64) -> (r: bool)
    ensures
        r == double_bits_finite(bits),
{
    bits & DOUBLE_EXP_MASK != DOUBLE_EXP_MASK
}

/// The textual degradation of a non-finite double bit pattern.
pub open spec fn spec_nonfinite_label(bits: u64) -> Seq<char> {
    if bits & DOUBLE_MANTISSA_MASK != 0 {
        "NaN"@
    } else if bits & DOUBLE_SIGN_MASK != 0 {
        "-inf"@
    } else {
        "inf"@
    }
}

/// Renders a non-finite double bit pattern as its diagnostic text.
pub fn nonfinite_label(bits: u64) -> (r: String)
    ensures
        r@ == spec_nonfinite_label(bits),
{
    if bits & DOUBLE_MANTISSA_MASK != 0 {
        String::from_str("NaN")
    } else if bits & DOUBLE_SIGN_MASK != 0 {
        String::from_str("-inf")
    } else {
        String::from_str("inf")
    }
}

/// The normalized type label of a value, as shown in a column header.
pub open spec fn spec_type_label(v: Value) -> Seq<char> {
    match v {
        Value::Null => "Null"@,
        Value::Bool(_) => "Boolean"@,
        Value::Int(_) => "Int64"@,
        Value::Double(_) => "Double"@,
        Value::Str(_) => "String"@,
        Value::Array(_) => "Array"@,
        Value::Object(_) => "Document"@,
    }
}

/// Renders the normalized type label of a value.
pub fn value_type_label(v: &Value) -> (r: String)
    ensures
        r@ == spec_type_label(*v),
{
    match v {
        Value::Null => String::from_str("Null"),
        Value::Bool(_) => String::from_str("Boolean"),
        Value::Int(_) => String::from_str("Int64"),
        Value::Double(_) => String::from_str("Double"),
        Value::Str(_) => String::from_str("String"),
        Value::Array(_) => String::from_str("Array"),
        Value::Object(_) => String::from_str("Document"),
    }
}

} // verus!
