//! The relational driver's logic: connection URL construction per engine
//! family, the engine-specific catalog queries, the table/view and
//! nullability/primary-key heuristics, and the normalization of fetched row
//! sets into the tabular contract.
//!
//! The pool connect and the query round-trips are the driver edge's work;
//! what is here decides and assembles around them.

use crate::error::DbError;
use crate::normalize::{cell_normalized, normalize_cell, NativeCell};
use crate::tabular::QueryRow;
use crate::text::{
    spec_contains, spec_dec, spec_opt_str, str_contains, str_eq, u64_to_string,
};
use crate::types::{ColumnInfo, ConnectionConfig, TableInfo};
use crate::value::Value;
use vstd::prelude::*;

verus! {

/// The embedded-file engine URL: the scheme plus the database path.
pub open spec fn spec_sqlite_url(cfg: ConnectionConfig) -> Seq<char> {
    "sqlite:"@ + cfg.database@
}

/// The client-server URL for the postgres engine, with the TLS mode chosen
/// by the descriptor's flag (absent means disabled).
pub open spec fn spec_postgres_url(cfg: ConnectionConfig) -> Seq<char> {
    "postgresql://"@ + cfg.username@ + ":"@ + spec_opt_str(cfg.password) + "@"@ + cfg.host@ + ":"@
        + spec_dec(cfg.port as int) + "/"@ + cfg.database@ + "?sslmode="@ + (if cfg.ssl == Some(
        true,
    ) {
        "require"@
    } else {
        "disable"@
    })
}

/// The client-server URL for the mysql engine family.
pub open spec fn spec_mysql_url(cfg: ConnectionConfig) -> Seq<char> {
    "mysql://"@ + cfg.username@ + ":"@ + spec_opt_str(cfg.password) + "@"@ + cfg.host@ + ":"@
        + spec_dec(cfg.port as int) + "/"@ + cfg.database@
}

/// The user:password@host:port/database middle part shared by the
/// client-server URLs.
fn url_authority(cfg: &ConnectionConfig) -> (r: String)
    ensures
        r@ == cfg.username@ + ":"@ + spec_opt_str(cfg.password) + "@"@ + cfg.host@ + ":"@
            + spec_dec(cfg.port as int) + "/"@ + cfg.database@,
{
    let mut s = String::new();
    s.append(cfg.username.as_str());
    s.append(":");
    match &cfg.password {
        Some(p) => s.append(p.as_str()),
        None => (),
    }
    s.append("@");
    s.append(cfg.host.as_str());
    s.append(":");
    let port = u64_to_string(cfg.port as u64);
    s.append(port.as_str());
    s.append("/");
    s.append(cfg.database.as_str());
    s
}

/// Builds the native connection URL for the descriptor's engine family, or
/// rejects a backend kind the relational driver does not implement.
pub fn connection_url(cfg: &ConnectionConfig) -> (r: Result<String, DbError>)
    ensures
        match r {
            Ok(url) => {
                ||| cfg.kind@ == "sqlite"@ && url@ == spec_sqlite_url(*cfg)
                ||| cfg.kind@ == "postgresql"@ && url@ == spec_postgres_url(*cfg)
                ||| (cfg.kind@ == "mysql"@ || cfg.kind@ == "mariadb"@) && url@ == spec_mysql_url(
                    *cfg,
                )
            },
            Err(e) => {
                &&& cfg.kind@ != "sqlite"@
                &&& cfg.kind@ != "postgresql"@
                &&& cfg.kind@ != "mysql"@
                &&& cfg.kind@ != "mariadb"@
                &&& e matches DbError::UnsupportedBackend(k) && k == cfg.kind
            },
        },
{
    if str_eq(cfg.kind.as_str(), "sqlite") {
        let mut url = String::from_str("sqlite:");
        url.append(cfg.database.as_str());
        Ok(url)
    } else if str_eq(cfg.kind.as_str(), "postgresql") {
        let mut url = String::from_str("postgresql://");
        let auth = url_authority(cfg);
        url.append(auth.as_str());
        url.append("?sslmode=");
        let ssl = match cfg.ssl {
            Some(b) => b,
            None => false,
        };
        if ssl {
            url.append("require");
        } else {
            url.append("disable");
        }
        Ok(url)
    } else if str_eq(cfg.kind.as_str(), "mysql") || str_eq(cfg.kind.as_str(), "mariadb") {
        let mut url = String::from_str("mysql://");
        let auth = url_authority(cfg);
        url.append(auth.as_str());
        Ok(url)
    } else {
        Err(DbError::UnsupportedBackend(cfg.kind.clone()))
    }
}

/// The one catalog query per engine family that lists (entry name, entry
/// kind) pairs, or a rejection for other kinds.
pub fn catalog_query(kind: &str) -> (r: Result<String, DbError>)
    ensures
        match r {
            Ok(q) => {
                ||| kind@ == "sqlite"@ && q@
                    == "SELECT name, type FROM (SELECT name, 'table' as type FROM sqlite_master WHERE type='table' UNION ALL SELECT name, 'view' as type FROM sqlite_master WHERE type='view') ORDER BY name"@
                ||| kind@ == "postgresql"@ && q@
                    == "SELECT table_name, table_type FROM information_schema.tables WHERE table_schema = 'public' ORDER BY table_name"@
                ||| (kind@ == "mysql"@ || kind@ == "mariadb"@) && q@
                    == "SELECT table_name, table_type FROM information_schema.tables WHERE table_schema = DATABASE() ORDER BY table_name"@
            },
            Err(e) => {
                &&& kind@ != "sqlite"@
                &&& kind@ != "postgresql"@
                &&& kind@ != "mysql"@
                &&& kind@ != "mariadb"@
                &&& e matches DbError::UnsupportedBackend(k) && k@ == kind@
            },
        },
{
    if str_eq(kind, "sqlite") {
        Ok(
            String::from_str(
                "SELECT name, type FROM (SELECT name, 'table' as type FROM sqlite_master WHERE type='table' UNION ALL SELECT name, 'view' as type FROM sqlite_master WHERE type='view') ORDER BY name",
            ),
        )
    } else if str_eq(kind, "postgresql") {
        Ok(
            String::from_str(
                "SELECT table_name, table_type FROM information_schema.tables WHERE table_schema = 'public' ORDER BY table_name",
            ),
        )
    } else if str_eq(kind, "mysql") || str_eq(kind, "mariadb") {
        Ok(
            String::from_str(
                "SELECT table_name, table_type FROM information_schema.tables WHERE table_schema = DATABASE() ORDER BY table_name",
            ),
        )
    } else {
        Err(DbError::UnsupportedBackend(String::from_str(kind)))
    }
}

/// The per-table column introspection query for the engine family. Tables
/// whose engine family is none of the known ones get no query (the original
/// driver introspects nothing for them).
pub fn columns_query(kind: &str, table: &str) -> (r: Option<String>)
    ensures
        match r {
            Some(q) => {
                ||| kind@ == "sqlite"@ && q@ == "PRAGMA table_info("@ + table@ + ")"@
                ||| kind@ == "postgresql"@ && q@
                    == "SELECT column_name, data_type, is_nullable, column_default, is_primary_key FROM information_schema.columns WHERE table_name = '"@
                    + table@ + "' ORDER BY ordinal_position"@
                ||| (kind@ == "mysql"@ || kind@ == "mariadb"@) && q@
                    == "SELECT column_name, data_type, is_nullable, column_default, extra FROM information_schema.columns WHERE table_name = '"@
                    + table@ + "' AND table_schema = DATABASE() ORDER BY ordinal_position"@
            },
            None => {
                &&& kind@ != "sqlite"@
                &&& kind@ != "postgresql"@
                &&& kind@ != "mysql"@
                &&& kind@ != "mariadb"@
            },
        },
{
    if str_eq(kind, "sqlite") {
        let mut q = String::from_str("PRAGMA table_info(");
        q.append(table);
        q.append(")");
        Some(q)
    } else if str_eq(kind, "postgresql") {
        let mut q = String::from_str(
            "SELECT column_name, data_type, is_nullable, column_default, is_primary_key FROM information_schema.columns WHERE table_name = '",
        );
        q.append(table);
        q.append("' ORDER BY ordinal_position");
        Some(q)
    } else if str_eq(kind, "mysql") || str_eq(kind, "mariadb") {
        let mut q = String::from_str(
            "SELECT column_name, data_type, is_nullable, column_default, extra FROM information_schema.columns WHERE table_name = '",
        );
        q.append(table);
        q.append("' AND table_schema = DATABASE() ORDER BY ordinal_position");
        Some(q)
    } else {
        None
    }
}

/// A catalog entry is a view when the catalog's type string contains the
/// literal token "VIEW" or equals "view"; anything else is a table.
pub open spec fn spec_entry_kind(catalog_type: Seq<char>) -> Seq<char> {
    if spec_contains(catalog_type, "VIEW"@) || catalog_type == "view"@ {
        "view"@
    } else {
        "table"@
    }
}

/// Classifies a catalog type string as "view" or "table".
pub fn classify_entry_kind(catalog_type: &str) -> (r: String)
    ensures
        r@ == spec_entry_kind(catalog_type@),
{
    if str_contains(catalog_type, "VIEW") || str_eq(catalog_type, "view") {
        String::from_str("view")
    } else {
        String::from_str("table")
    }
}

/// One introspected schema entry: the classification heuristic applied to
/// the catalog's type string, with the schema fixed to the "public"
/// namespace and no counts, as the relational driver reports it.
pub fn schema_entry(name: String, catalog_type: &str, columns: Vec<ColumnInfo>) -> (r: TableInfo)
    ensures
        r.name == name,
        r.schema matches Some(s) && s@ == "public"@,
        r.kind@ == spec_entry_kind(catalog_type@),
        r.columns == columns,
        r.row_count is None,
        r.size is None,
{
    TableInfo {
        name,
        schema: Some(String::from_str("public")),
        kind: classify_entry_kind(catalog_type),
        columns,
        row_count: None,
        size: None,
    }
}

/// One column of the embedded-file engine's pragma catalog: nullable is the
/// negation of the not-null flag, and the primary-key flag is set when the
/// pk rank is positive.
pub fn column_from_sqlite_row(name: String, decl_type: String, not_null: bool, pk: i32) -> (r:
    ColumnInfo)
    ensures
        r.name == name,
        r.column_type == decl_type,
        r.nullable == !not_null,
        r.default_value is None,
        r.is_primary_key == (pk > 0),
        !r.is_foreign_key,
        r.foreign_key_table is None,
        r.foreign_key_column is None,
{
    ColumnInfo {
        name,
        column_type: decl_type,
        nullable: !not_null,
        default_value: None,
        is_primary_key: pk > 0,
        is_foreign_key: false,
        foreign_key_table: None,
        foreign_key_column: None,
    }
}

/// One column of a client-server information-schema catalog: nullable iff
/// the nullable string equals "YES", and the primary-key flag is the
/// best-effort substring match for "PRIMARY KEY" in the engine-reported
/// extra field (a documented heuristic, not a guarantee).
pub fn column_from_catalog_row(
    name: String,
    data_type: String,
    is_nullable: &str,
    column_default: Option<String>,
    extra: Option<String>,
) -> (r: ColumnInfo)
    ensures
        r.name == name,
        r.column_type == data_type,
        r.nullable == (is_nullable@ == "YES"@),
        r.default_value == column_default,
        r.is_primary_key == match extra {
            Some(e) => spec_contains(e@, "PRIMARY KEY"@),
            None => false,
        },
        !r.is_foreign_key,
        r.foreign_key_table is None,
        r.foreign_key_column is None,
{
    let is_pk = match &extra {
        Some(e) => str_contains(e.as_str(), "PRIMARY KEY"),
        None => false,
    };
    ColumnInfo {
        name,
        column_type: data_type,
        nullable: str_eq(is_nullable, "YES"),
        default_value: column_default,
        is_primary_key: is_pk,
        is_foreign_key: false,
        foreign_key_table: None,
        foreign_key_column: None,
    }
}

/// One fetched cell, with the column name and native type label the engine
/// reported for it in its own row.
pub struct NativeField {
    pub name: String,
    pub native_type: String,
    pub cell: NativeCell,
}

/// One fetched row.
pub struct NativeRow {
    pub cells: Vec<NativeField>,
}

/// Normalizes a fetched row set into the tabular contract. Column names and
/// type labels are derived from the first row only (an empty result has no
/// columns), and every row is normalized independently against its own
/// reported types, which tolerates engines that change a column's native
/// type mid-stream.
pub fn build_query_result(rows: Vec<NativeRow>) -> (r: QueryRow)
    requires
        forall|j: int|
            0 <= j < rows@.len() ==> (#[trigger] rows@[j]).cells@.len() == rows@[0].cells@.len(),
    ensures
        r.wf(),
        rows@.len() == 0 ==> r.columns@.len() == 0 && r.rows@.len() == 0,
        rows@.len() > 0 ==> {
            &&& r.columns@.len() == rows@[0].cells@.len()
            &&& r.types@.len() == rows@[0].cells@.len()
            &&& forall|k: int|
                0 <= k < rows@[0].cells@.len() ==> (#[trigger] r.columns@[k])
                    == rows@[0].cells@[k].name && r.types@[k] == rows@[0].cells@[k].native_type
        },
        r.rows@.len() == rows@.len(),
        forall|j: int, k: int|
            0 <= j < rows@.len() && 0 <= k < rows@[j].cells@.len() ==> cell_normalized(
                rows@[j].cells@[k].native_type@,
                rows@[j].cells@[k].cell,
                #[trigger] r.rows@[j]@[k],
            ),
{
    let mut columns: Vec<String> = Vec::new();
    let mut types: Vec<String> = Vec::new();
    if rows.len() > 0 {
        let first = &rows[0];
        let width = first.cells.len();
        let mut k: usize = 0;
        while k < width
            invariant
                width == first.cells@.len(),
                k <= width,
                columns@.len() == k,
                types@.len() == k,
                forall|t: int|
                    0 <= t < k ==> (#[trigger] columns@[t]) == first.cells@[t].name && types@[t]
                        == first.cells@[t].native_type,
            decreases width - k,
        {
            columns.push(first.cells[k].name.clone());
            types.push(first.cells[k].native_type.clone());
            k = k + 1;
        }
    }
    let mut out: Vec<Vec<Value>> = Vec::new();
    let mut rest = rows;
    let ghost orig = rest@;
    proof {
        assert(orig.subrange(0, orig.len() as int) =~= orig);
    }
    while rest.len() > 0
        invariant
            out@.len() + rest@.len() == orig.len(),
            rest@ == orig.subrange(out@.len() as int, orig.len() as int),
            forall|j: int|
                0 <= j < orig.len() ==> (#[trigger] orig[j]).cells@.len() == orig[0].cells@.len(),
            forall|j: int| 0 <= j < out@.len() ==> (#[trigger] out@[j])@.len() == orig[j].cells@.len(),
            forall|j: int, k: int|
                0 <= j < out@.len() && 0 <= k < orig[j].cells@.len() ==> cell_normalized(
                    orig[j].cells@[k].native_type@,
                    orig[j].cells@[k].cell,
                    #[trigger] out@[j]@[k],
                ),
        decreases rest@.len(),
    {
        let ghost j = out@.len() as int;
        let row = rest.remove(0);
        proof {
            assert(row == orig[j]);
            assert(rest@ =~= orig.subrange(j + 1, orig.len() as int));
        }
        let mut cells = row.cells;
        let ghost row_orig = cells@;
        proof {
            assert(row_orig.subrange(0, row_orig.len() as int) =~= row_orig);
        }
        let mut values: Vec<Value> = Vec::new();
        while cells.len() > 0
            invariant
                values@.len() + cells@.len() == row_orig.len(),
                cells@ == row_orig.subrange(values@.len() as int, row_orig.len() as int),
                forall|k: int|
                    0 <= k < values@.len() ==> cell_normalized(
                        row_orig[k].native_type@,
                        row_orig[k].cell,
                        #[trigger] values@[k],
                    ),
            decreases cells@.len(),
        {
            let ghost k = values@.len() as int;
            let field = cells.remove(0);
            proof {
                assert(field == row_orig[k]);
                assert(cells@ =~= row_orig.subrange(k + 1, row_orig.len() as int));
            }
            let v = normalize_cell(field.native_type.as_str(), field.cell);
            values.push(v);
        }
        out.push(values);
    }
    let r = QueryRow { columns, types, rows: out };
    r
}

} // verus!
