use dbcore::normalize::{normalize_cell, NativeCell};
use dbcore::value::Value;

fn s(text: &str) -> String {
    text.to_string()
}

#[test]
fn null_cell_is_null_under_every_declared_type() {
    for declared in ["BOOLEAN", "INTEGER", "DOUBLE", "TEXT", "whatever", ""] {
        assert_eq!(normalize_cell(declared, NativeCell::Null), Value::Null);
    }
}

#[test]
fn boolean_declared_types_keep_booleans() {
    assert_eq!(normalize_cell("BOOLEAN", NativeCell::Bool(true)), Value::Bool(true));
    assert_eq!(normalize_cell("BOOL", NativeCell::Bool(false)), Value::Bool(false));
}

#[test]
fn integer_family_lands_in_the_64_bit_domain() {
    for declared in ["TINYINT", "SMALLINT", "INT", "INTEGER", "BIGINT"] {
        assert_eq!(normalize_cell(declared, NativeCell::Int(42)), Value::Int(42));
    }
    assert_eq!(normalize_cell("BIGINT", NativeCell::Int(i64::MIN)), Value::Int(i64::MIN));
}

#[test]
fn float_family_keeps_finite_doubles_as_bits() {
    let bits = (1.5f64).to_bits();
    for declared in ["REAL", "FLOAT", "DOUBLE", "DECIMAL", "NUMERIC"] {
        let cell = NativeCell::Double { bits, text: s("1.5") };
        assert_eq!(normalize_cell(declared, cell), Value::Double(bits));
    }
}

#[test]
fn non_finite_double_degrades_to_string_not_an_invalid_number() {
    let bits = f64::NAN.to_bits();
    let cell = NativeCell::Double { bits, text: s("NaN") };
    assert_eq!(normalize_cell("DOUBLE", cell), Value::Str(s("NaN")));
    let inf = f64::INFINITY.to_bits();
    let cell = NativeCell::Double { bits: inf, text: s("inf") };
    assert_eq!(normalize_cell("NUMERIC", cell), Value::Str(s("inf")));
}

#[test]
fn text_family_keeps_strings() {
    for declared in ["TEXT", "VARCHAR", "CHAR", "STRING", "NAME"] {
        assert_eq!(normalize_cell(declared, NativeCell::Text(s("hello"))), Value::Str(s("hello")));
    }
}

#[test]
fn mismatched_declared_type_degrades_by_string_coercion() {
    assert_eq!(normalize_cell("TEXT", NativeCell::Int(7)), Value::Str(s("7")));
    assert_eq!(normalize_cell("INTEGER", NativeCell::Bool(false)), Value::Str(s("false")));
    assert_eq!(normalize_cell("VARCHAR", NativeCell::Bool(true)), Value::Str(s("true")));
    let bits = (2.5f64).to_bits();
    let cell = NativeCell::Double { bits, text: s("2.5") };
    assert_eq!(normalize_cell("TEXT", cell), Value::Str(s("2.5")));
}

#[test]
fn negative_integers_coerce_with_a_minus_sign() {
    assert_eq!(normalize_cell("TEXT", NativeCell::Int(-130)), Value::Str(s("-130")));
    assert_eq!(
        normalize_cell("TEXT", NativeCell::Int(i64::MIN)),
        Value::Str(s("-9223372036854775808"))
    );
}

#[test]
fn unknown_cells_fall_back_to_their_diagnostic_text() {
    assert_eq!(normalize_cell("BLOB", NativeCell::Other(s("BLOB(3)"))), Value::Str(s("BLOB(3)")));
}

#[test]
fn normalizer_is_total_over_a_battery_of_pairs() {
    let declared = ["", "BOOLEAN", "TINYINT", "DECIMAL", "NAME", "GEOMETRY", "bool", "int8"];
    for d in declared {
        let cells = vec![
            NativeCell::Null,
            NativeCell::Bool(true),
            NativeCell::Int(-1),
            NativeCell::Double { bits: f64::NEG_INFINITY.to_bits(), text: s("-inf") },
            NativeCell::Text(s("x")),
            NativeCell::Other(s("?")),
        ];
        for c in cells {
            // every pair yields a value; none may panic
            let _ = normalize_cell(d, c);
        }
    }
}
