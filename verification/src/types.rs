//! Shared descriptor types: column and table metadata produced by schema
//! introspection, and the caller-supplied connection descriptor.

use vstd::prelude::*;

verus! {

/// One introspected column or field.
pub struct ColumnInfo {
    pub name: String,
    /// The native type label reported by the engine's catalog.
    pub column_type: String,
    pub nullable: bool,
    pub default_value: Option<String>,
    pub is_primary_key: bool,
    /// Best-effort only; document and key-value stores never set it.
    pub is_foreign_key: bool,
    pub foreign_key_table: Option<String>,
    pub foreign_key_column: Option<String>,
}

/// One introspected structural unit: a table, view, collection or key
/// namespace, with its fields.
pub struct TableInfo {
    pub name: String,
    pub schema: Option<String>,
    /// Structural kind tag: "table", "view", "collection" or "redis_keys".
    pub kind: String,
    pub columns: Vec<ColumnInfo>,
    pub row_count: Option<u64>,
    pub size: Option<u64>,
}

/// The caller-supplied connection descriptor, immutable once a connection is
/// opened. A new descriptor under the same identifier replaces the prior
/// live connection.
pub struct ConnectionConfig {
    pub id: String,
    pub name: String,
    /// Backend kind label: "sqlite", "postgresql", "mysql", "mariadb",
    /// "mongodb" or "redis".
    pub kind: String,
    pub host: String,
    pub port: u16,
    pub database: String,
    pub username: String,
    pub password: Option<String>,
    pub ssl: Option<bool>,
}

} // verus!
