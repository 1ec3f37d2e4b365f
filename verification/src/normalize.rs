//! The Value Normalizer: one native relational cell plus its declared type
//! label in, exactly one generic value out, for every input. An unrecognized
//! or unconvertible pairing degrades to a best-effort string, so normalization
//! can never abort a query.

use crate::text::{spec_dec_signed, str_eq, i64_to_string};
use crate::value::{double_bits_finite, double_bits_finite_exec, Value};
use vstd::prelude::*;

verus! {

/// One native cell as the relational driver edge hands it over: the fetched
/// value itself, with doubles as IEEE-754 bits beside the engine's own
/// textual rendering (the string coercion a permissive engine would give).
#[derive(Debug)]
pub enum NativeCell {
    /// Database-level NULL.
    Null,
    Bool(bool),
    Int(i64),
    Double { bits: u64, text: String },
    Text(String),
    /// Only a diagnostic textual form is available for this cell.
    Other(String),
}

/// The declared type label is in the boolean family.
pub open spec fn is_bool_type(t: Seq<char>) -> bool {
    t == "BOOLEAN"@ || t == "BOOL"@
}

/// The declared type label is in the integer family.
pub open spec fn is_int_type(t: Seq<char>) -> bool {
    t == "TINYINT"@ || t == "SMALLINT"@ || t == "INT"@ || t == "INTEGER"@ || t == "BIGINT"@
}

/// The declared type label is in the floating/decimal family.
pub open spec fn is_float_type(t: Seq<char>) -> bool {
    t == "REAL"@ || t == "FLOAT"@ || t == "DOUBLE"@ || t == "DECIMAL"@ || t == "NUMERIC"@
}

/// The textual coercion of a boolean.
pub open spec fn spec_bool_text(b: bool) -> Seq<char> {
    if b {
        "true"@
    } else {
        "false"@
    }
}

/// What the normalizer returns for one (declared type, native cell) pair, in
/// the priority order of the design: null first, then the declared family if
/// the fetched value fits it, then string coercion, with the diagnostic text
/// as the last resort.
pub open spec fn cell_normalized(declared: Seq<char>, cell: NativeCell, r: Value) -> bool {
    match cell {
        NativeCell::Null => r == Value::Null,
        NativeCell::Bool(b) => if is_bool_type(declared) {
            r == Value::Bool(b)
        } else {
            r matches Value::Str(t) && t@ == spec_bool_text(b)
        },
        NativeCell::Int(i) => if is_int_type(declared) {
            r == Value::Int(i)
        } else {
            r matches Value::Str(t) && t@ == spec_dec_signed(i as int)
        },
        NativeCell::Double { bits, text } => if is_float_type(declared) && double_bits_finite(
            bits,
        ) {
            r == Value::Double(bits)
        } else {
            r matches Value::Str(t) && t == text
        },
        NativeCell::Text(s) => r matches Value::Str(t) && t == s,
        NativeCell::Other(d) => r matches Value::Str(t) && t == d,
    }
}

/// Executable test for the boolean type family.
pub fn bool_type(t: &str) -> (r: bool)
    ensures
        r == is_bool_type(t@),
{
    str_eq(t, "BOOLEAN") || str_eq(t, "BOOL")
}

/// Executable test for the integer type family.
pub fn int_type(t: &str) -> (r: bool)
    ensures
        r == is_int_type(t@),
{
    str_eq(t, "TINYINT") || str_eq(t, "SMALLINT") || str_eq(t, "INT") || str_eq(t, "INTEGER")
        || str_eq(t, "BIGINT")
}

/// Executable test for the floating/decimal type family.
pub fn float_type(t: &str) -> (r: bool)
    ensures
        r == is_float_type(t@),
{
    str_eq(t, "REAL") || str_eq(t, "FLOAT") || str_eq(t, "DOUBLE") || str_eq(t, "DECIMAL")
        || str_eq(t, "NUMERIC")
}

/// Normalizes one native cell. Total: there is no precondition, and a result
/// is returned for every (declared type, cell) pair; nothing here can fail.
pub fn normalize_cell(declared: &str, cell: NativeCell) -> (r: Value)
    ensures
        cell_normalized(declared@, cell, r),
{
    match cell {
        NativeCell::Null => Value::Null,
        NativeCell::Bool(b) => if bool_type(declared) {
            Value::Bool(b)
        } else {
            if b {
                Value::Str(String::from_str("true"))
            } else {
                Value::Str(String::from_str("false"))
            }
        },
        NativeCell::Int(i) => if int_type(declared) {
            Value::Int(i)
        } else {
            Value::Str(i64_to_string(i))
        },
        NativeCell::Double { bits, text } => if float_type(declared) && double_bits_finite_exec(
            bits,
        ) {
            Value::Double(bits)
        } else {
            Value::Str(text)
        },
        NativeCell::Text(s) => Value::Str(s),
        NativeCell::Other(d) => Value::Str(d),
    }
}

} // verus!
