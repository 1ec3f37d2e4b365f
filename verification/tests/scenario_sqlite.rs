//! Scenario: an embedded relational store, driven for real through the
//! native client, with every result shaped by the library.

use dbcore::normalize::NativeCell;
use dbcore::relational::{
    build_query_result, catalog_query, column_from_sqlite_row, columns_query, connection_url,
    schema_entry, NativeField, NativeRow,
};
use dbcore::tabular::make_query_result;
use dbcore::types::ConnectionConfig;
use dbcore::value::Value;
use sqlx::{Column, Row, TypeInfo};

fn s(text: &str) -> String {
    text.to_string()
}

fn memory_config() -> ConnectionConfig {
    ConnectionConfig {
        id: s("embedded"),
        name: s("embedded"),
        kind: s("sqlite"),
        host: s(""),
        port: 0,
        database: s(":memory:"),
        username: s(""),
        password: None,
        ssl: None,
    }
}

fn native_cell(row: &sqlx::any::AnyRow, i: usize, native_type: &str) -> NativeCell {
    if let Ok(None) = row.try_get::<Option<String>, _>(i) {
        return NativeCell::Null;
    }
    match native_type {
        "BOOLEAN" => {
            if let Ok(b) = row.try_get::<bool, _>(i) {
                return NativeCell::Bool(b);
            }
        }
        "SMALLINT" | "INTEGER" | "BIGINT" => {
            if let Ok(v) = row.try_get::<i64, _>(i) {
                return NativeCell::Int(v);
            }
        }
        "REAL" | "DOUBLE" => {
            if let Ok(f) = row.try_get::<f64, _>(i) {
                return NativeCell::Double { bits: f.to_bits(), text: f.to_string() };
            }
        }
        _ => {}
    }
    if let Ok(v) = row.try_get::<String, _>(i) {
        return NativeCell::Text(v);
    }
    if let Ok(v) = row.try_get::<i64, _>(i) {
        return NativeCell::Int(v);
    }
    if let Ok(f) = row.try_get::<f64, _>(i) {
        return NativeCell::Double { bits: f.to_bits(), text: f.to_string() };
    }
    NativeCell::Other(format!("{:?}", row.column(i).type_info))
}

fn native_row(row: &sqlx::any::AnyRow) -> NativeRow {
    let mut cells = Vec::new();
    for i in 0..row.len() {
        let column = row.column(i);
        let native_type = column.type_info.name().to_string();
        cells.push(NativeField {
            name: column.name.to_string(),
            native_type: native_type.clone(),
            cell: native_cell(row, i, &native_type),
        });
    }
    NativeRow { cells }
}

fn cell_as_int(cell: &NativeCell) -> i64 {
    match cell {
        NativeCell::Int(v) => *v,
        NativeCell::Text(t) => t.parse().unwrap_or(0),
        _ => 0,
    }
}

async fn run(pool: &sqlx::AnyPool, sql: &str) {
    let mut b = sqlx::QueryBuilder::new(sql);
    b.build().execute(pool).await.unwrap();
}

async fn fetch(pool: &sqlx::AnyPool, sql: &str) -> Vec<NativeRow> {
    let mut b = sqlx::QueryBuilder::new(sql);
    let rows = b.build().fetch_all(pool).await.unwrap();
    rows.iter().map(native_row).collect()
}

#[test]
fn embedded_store_round_trip_preserves_inserted_integers() {
    let rt = tokio::runtime::Builder::new_current_thread().enable_all().build().unwrap();
    rt.block_on(async {
        let url = connection_url(&memory_config()).unwrap();
        assert_eq!(url, s("sqlite::memory:"));
        sqlx::any::install_default_drivers();
        let pool = sqlx::any::AnyPoolOptions::new().max_connections(1).connect(&url).await.unwrap();

        run(&pool, "CREATE TABLE t (id INTEGER PRIMARY KEY, label TEXT)").await;
        run(&pool, "INSERT INTO t (id, label) VALUES (101, 'first')").await;
        run(&pool, "INSERT INTO t (id, label) VALUES (202, 'second')").await;

        let native = fetch(&pool, "SELECT * FROM t ORDER BY id").await;
        let q = build_query_result(native);
        assert_eq!(q.columns, vec![s("id"), s("label")]);
        assert_eq!(q.rows.len(), 2);
        for row in &q.rows {
            assert_eq!(row.len(), q.columns.len());
        }
        assert_eq!(q.rows[0][0], Value::Int(101));
        assert_eq!(q.rows[0][1], Value::Str(s("first")));
        assert_eq!(q.rows[1][0], Value::Int(202));

        let envelope = make_query_result(q, 3);
        assert_eq!(envelope.row_count, 2);
        assert_eq!(envelope.affected_rows, 0);
        assert!(envelope.error.is_none());
    });
}

#[test]
fn embedded_store_schema_introspection_classifies_and_describes() {
    let rt = tokio::runtime::Builder::new_current_thread().enable_all().build().unwrap();
    rt.block_on(async {
        let url = connection_url(&memory_config()).unwrap();
        sqlx::any::install_default_drivers();
        let pool = sqlx::any::AnyPoolOptions::new().max_connections(1).connect(&url).await.unwrap();

        run(&pool, "CREATE TABLE t (id INTEGER PRIMARY KEY, label TEXT NOT NULL)").await;
        run(&pool, "CREATE VIEW v AS SELECT id FROM t").await;

        let catalog = catalog_query("sqlite").unwrap();
        let entries = fetch(&pool, &catalog).await;
        assert_eq!(entries.len(), 2);

        let mut tables = Vec::new();
        for entry in &entries {
            let name = match &entry.cells[0].cell {
                NativeCell::Text(n) => n.clone(),
                other => panic!("unexpected name cell {:?}", other),
            };
            let entry_kind = match &entry.cells[1].cell {
                NativeCell::Text(k) => k.clone(),
                other => panic!("unexpected kind cell {:?}", other),
            };
            let cq = columns_query("sqlite", &name).unwrap();
            let column_rows = fetch(&pool, &cq).await;
            let mut columns = Vec::new();
            for cr in &column_rows {
                let cname = match &cr.cells[1].cell {
                    NativeCell::Text(n) => n.clone(),
                    _ => panic!("unexpected column name"),
                };
                let decl = match &cr.cells[2].cell {
                    NativeCell::Text(n) => n.clone(),
                    _ => String::new(),
                };
                let not_null = cell_as_int(&cr.cells[3].cell) != 0;
                let pk_rank = cell_as_int(&cr.cells[5].cell) as i32;
                columns.push(column_from_sqlite_row(cname, decl, not_null, pk_rank));
            }
            tables.push(schema_entry(name, &entry_kind, columns));
        }

        let t = tables.iter().find(|x| x.name == s("t")).unwrap();
        assert_eq!(t.kind, s("table"));
        assert_eq!(t.columns.len(), 2);
        assert_eq!(t.columns[0].name, s("id"));
        assert!(t.columns[0].is_primary_key);
        assert_eq!(t.columns[1].name, s("label"));
        assert!(!t.columns[1].nullable);
        assert!(!t.columns[1].is_primary_key);

        let v = tables.iter().find(|x| x.name == s("v")).unwrap();
        assert_eq!(v.kind, s("view"));
    });
}
