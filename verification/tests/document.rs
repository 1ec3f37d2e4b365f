use dbcore::document::{
    build_find_result, collection_entry, count_result, normalize_document_value,
    parse_document_command, validate_find_filter, DocCommand, DocValue, FoundDoc,
};
use dbcore::document::doc_connection_url;
use dbcore::types::ConnectionConfig;
use dbcore::value::Value;

fn s(text: &str) -> String {
    text.to_string()
}

fn doc(id: &str, fields: Vec<(&str, Value)>) -> FoundDoc {
    FoundDoc { id: s(id), fields: fields.into_iter().map(|(k, v)| (s(k), v)).collect() }
}

#[test]
fn connection_string_includes_credentials_only_with_a_username() {
    let mut cfg = ConnectionConfig {
        id: s("m1"),
        name: s("docs"),
        kind: s("mongodb"),
        host: s("db.example"),
        port: 27017,
        database: s("shop"),
        username: s("alice"),
        password: Some(s("pw")),
        ssl: None,
    };
    assert_eq!(doc_connection_url(&cfg), s("mongodb://alice:pw@db.example:27017/shop"));
    cfg.username = s("");
    assert_eq!(doc_connection_url(&cfg), s("mongodb://db.example:27017/shop"));
}

#[test]
fn dotted_find_command_parses() {
    match parse_document_command("orders.find({})") {
        Ok(DocCommand::Find { collection, filter }) => {
            assert_eq!(collection, s("orders"));
            assert_eq!(filter, s("{}"));
        }
        other => panic!("expected find, got {:?}", other.is_ok()),
    }
}

#[test]
fn find_command_with_whitespace_and_filter_parses() {
    match parse_document_command("users. find({\"age\": 30})") {
        Ok(DocCommand::Find { collection, filter }) => {
            assert_eq!(collection, s("users"));
            assert_eq!(filter, s("{\"age\": 30}"));
        }
        _ => panic!("expected find"),
    }
}

#[test]
fn count_command_parses() {
    match parse_document_command("orders.count()") {
        Ok(DocCommand::Count { collection }) => assert_eq!(collection, s("orders")),
        _ => panic!("expected count"),
    }
}

#[test]
fn command_without_dot_is_malformed() {
    let e = parse_document_command("noperiod").unwrap_err();
    assert_eq!(e.message(), s("Invalid MQL format. Use: collection.command"));
}

#[test]
fn find_without_closing_parenthesis_is_malformed() {
    let e = parse_document_command("c.find({").unwrap_err();
    assert_eq!(e.message(), s("Malformed find command"));
}

#[test]
fn unknown_operation_is_unsupported() {
    let e = parse_document_command("c.drop()").unwrap_err();
    assert_eq!(e.message(), s("Unsupported command: drop()"));
}

#[test]
fn empty_and_brace_filters_mean_match_all() {
    assert!(validate_find_filter(""));
    assert!(validate_find_filter("{}"));
}

#[test]
fn structured_filters_must_parse_as_documents() {
    assert!(validate_find_filter("{\"a\": 1}"));
    assert!(validate_find_filter("{\"a\": {\"$gt\": 2}}"));
    assert!(!validate_find_filter("{bad"));
    assert!(!validate_find_filter("[1, 2]"));
    assert!(!validate_find_filter("\"just a string\""));
}

#[test]
fn empty_collection_yields_identifier_column_and_no_rows() {
    let r = build_find_result(Vec::new());
    assert_eq!(r.columns, vec![s("_id")]);
    assert_eq!(r.types, vec![s("ObjectId")]);
    assert!(r.rows.is_empty());
}

#[test]
fn one_document_yields_its_key_as_a_second_column() {
    let r = build_find_result(vec![doc("65f0", vec![("a", Value::Int(1))])]);
    assert_eq!(r.columns, vec![s("_id"), s("a")]);
    assert_eq!(r.types, vec![s("ObjectId"), s("Int64")]);
    assert_eq!(r.rows.len(), 1);
    assert_eq!(r.rows[0], vec![Value::Str(s("65f0")), Value::Int(1)]);
}

#[test]
fn columns_accrete_in_first_seen_order_and_rows_backfill_nulls() {
    let docs = vec![
        doc("d0", vec![("a", Value::Int(1))]),
        doc("d1", vec![("b", Value::Str(s("x")))]),
        doc("d2", vec![("a", Value::Int(3)), ("c", Value::Bool(true))]),
    ];
    let r = build_find_result(docs);
    assert_eq!(r.columns, vec![s("_id"), s("a"), s("b"), s("c")]);
    assert_eq!(r.types, vec![s("ObjectId"), s("Int64"), s("String"), s("Boolean")]);
    assert_eq!(r.rows.len(), 3);
    for row in &r.rows {
        assert_eq!(row.len(), r.columns.len());
    }
    assert_eq!(r.rows[0], vec![Value::Str(s("d0")), Value::Int(1), Value::Null, Value::Null]);
    assert_eq!(
        r.rows[1],
        vec![Value::Str(s("d1")), Value::Null, Value::Str(s("x")), Value::Null]
    );
    assert_eq!(
        r.rows[2],
        vec![Value::Str(s("d2")), Value::Int(3), Value::Null, Value::Bool(true)]
    );
}

#[test]
fn identifier_field_inside_the_document_does_not_repeat_the_column() {
    let docs = vec![doc("d0", vec![("_id", Value::Str(s("ignored"))), ("a", Value::Int(9))])];
    let r = build_find_result(docs);
    assert_eq!(r.columns, vec![s("_id"), s("a")]);
    assert_eq!(r.rows[0][0], Value::Str(s("d0")));
}

#[test]
fn count_result_is_a_single_int64_cell() {
    let r = count_result(12);
    assert_eq!(r.columns, vec![s("count")]);
    assert_eq!(r.types, vec![s("Int64")]);
    assert_eq!(r.rows, vec![vec![Value::Int(12)]]);
}

#[test]
fn collection_entry_exposes_the_synthetic_identifier_descriptor() {
    let t = collection_entry(s("orders"), s("shop"));
    assert_eq!(t.name, s("orders"));
    assert_eq!(t.schema, Some(s("shop")));
    assert_eq!(t.kind, s("collection"));
    assert_eq!(t.columns.len(), 1);
    assert_eq!(t.columns[0].name, s("_id"));
    assert_eq!(t.columns[0].column_type, s("ObjectId"));
    assert!(t.columns[0].is_primary_key);
    assert!(!t.columns[0].is_foreign_key);
}

#[test]
fn document_values_normalize_recursively_without_flattening() {
    let v = DocValue::Doc(vec![
        (s("n"), DocValue::Int32(5)),
        (s("big"), DocValue::Int64(1 << 40)),
        (s("tags"), DocValue::Array(vec![DocValue::Str(s("a")), DocValue::Null])),
        (s("oid"), DocValue::ObjectId(s("65f000"))),
    ]);
    let r = normalize_document_value(&v);
    assert_eq!(
        r,
        Value::Object(vec![
            (s("n"), Value::Int(5)),
            (s("big"), Value::Int(1 << 40)),
            (s("tags"), Value::Array(vec![Value::Str(s("a")), Value::Null])),
            (s("oid"), Value::Str(s("65f000"))),
        ])
    );
}

#[test]
fn non_finite_document_doubles_degrade_to_text() {
    let r = normalize_document_value(&DocValue::Double(f64::NAN.to_bits()));
    assert_eq!(r, Value::Str(s("NaN")));
    let fine = normalize_document_value(&DocValue::Double((0.25f64).to_bits()));
    assert_eq!(fine, Value::Double((0.25f64).to_bits()));
}
