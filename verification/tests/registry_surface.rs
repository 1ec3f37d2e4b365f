use dbcore::error::DbError;
use dbcore::keyvalue::ok_result;
use dbcore::registry::Registry;
use dbcore::router::{parse_backend_kind, parse_strategy, BackendKind, ParseStrategy,
    RelationalEngine};
use dbcore::tabular::make_query_result;

fn s(text: &str) -> String {
    text.to_string()
}

#[test]
fn reconnect_under_one_identifier_replaces_the_entry() {
    let mut reg: Registry<i32> = Registry::new();
    reg.connect(s("a"), 1);
    reg.connect(s("a"), 2);
    assert_eq!(reg.count(), 1);
    assert_eq!(reg.lookup("a").unwrap(), &2);
}

#[test]
fn distinct_identifiers_keep_distinct_entries() {
    let mut reg: Registry<i32> = Registry::new();
    reg.connect(s("a"), 1);
    reg.connect(s("b"), 2);
    assert_eq!(reg.count(), 2);
    assert_eq!(reg.lookup("a").unwrap(), &1);
    assert_eq!(reg.lookup("b").unwrap(), &2);
}

#[test]
fn disconnect_is_idempotent() {
    let mut reg: Registry<i32> = Registry::new();
    reg.disconnect("missing");
    reg.disconnect("missing");
    reg.connect(s("a"), 1);
    reg.disconnect("a");
    reg.disconnect("a");
    assert_eq!(reg.count(), 0);
    assert!(reg.lookup("a").is_err());
}

#[test]
fn operations_on_unknown_identifiers_are_not_connected() {
    let reg: Registry<i32> = Registry::new();
    let e = reg.lookup("nobody").unwrap_err();
    assert_eq!(e.message(), s("Not connected"));
}

#[test]
fn backend_kind_labels_classify_exhaustively() {
    assert_eq!(
        parse_backend_kind("sqlite").unwrap(),
        BackendKind::Relational(RelationalEngine::Sqlite)
    );
    assert_eq!(
        parse_backend_kind("postgresql").unwrap(),
        BackendKind::Relational(RelationalEngine::Postgres)
    );
    assert_eq!(
        parse_backend_kind("mysql").unwrap(),
        BackendKind::Relational(RelationalEngine::MySqlFamily)
    );
    assert_eq!(
        parse_backend_kind("mariadb").unwrap(),
        BackendKind::Relational(RelationalEngine::MySqlFamily)
    );
    assert_eq!(parse_backend_kind("mongodb").unwrap(), BackendKind::Document);
    assert_eq!(parse_backend_kind("redis").unwrap(), BackendKind::KeyValue);
    let e = parse_backend_kind("cassandra").unwrap_err();
    assert_eq!(e.message(), s("Unsupported database type: cassandra"));
}

#[test]
fn each_backend_has_its_parse_strategy() {
    assert_eq!(
        parse_strategy(BackendKind::Relational(RelationalEngine::Sqlite)),
        ParseStrategy::SqlPassthrough
    );
    assert_eq!(parse_strategy(BackendKind::Document), ParseStrategy::DocumentDotted);
    assert_eq!(parse_strategy(BackendKind::KeyValue), ParseStrategy::KeyValueTokens);
}

#[test]
fn error_messages_render_each_variant() {
    assert_eq!(DbError::UnsupportedBackend(s("x")).message(), s("Unsupported database type: x"));
    assert_eq!(DbError::ConnectFailure(s("boom")).message(), s("boom"));
    assert_eq!(DbError::NotConnected.message(), s("Not connected"));
    assert_eq!(DbError::MalformedCommand(s("m")).message(), s("m"));
    assert_eq!(DbError::NativeExecutionFailure(s("bad sql")).message(), s("bad sql"));
    assert_eq!(DbError::UnsupportedOperation(s("op")).message(), s("Unsupported command: op"));
}

#[test]
fn the_envelope_counts_rows_and_reports_success() {
    let q = ok_result();
    let r = make_query_result(q, 7);
    assert_eq!(r.row_count, 1);
    assert_eq!(r.execution_time, 7);
    assert_eq!(r.affected_rows, 0);
    assert!(r.error.is_none());
    assert_eq!(r.columns, vec![s("OK")]);
}
