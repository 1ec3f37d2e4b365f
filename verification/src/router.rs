//! The command router: classifies a descriptor's backend kind label into the
//! backend variant, and picks the parse strategy for a raw command per
//! variant. Dispatch is exhaustive over the variants, so a new backend
//! cannot be added without a routing case.

use crate::error::DbError;
use crate::text::str_eq;
use vstd::prelude::*;

verus! {

/// The relational engine families this core implements.
#[derive(Clone, Copy, PartialEq, Eq, Structural, Debug)]
pub enum RelationalEngine {
    Sqlite,
    Postgres,
    MySqlFamily,
}

/// The backend variant a live connection belongs to.
#[derive(Clone, Copy, PartialEq, Eq, Structural, Debug)]
pub enum BackendKind {
    Relational(RelationalEngine),
    Document,
    KeyValue,
}

/// How a raw command string is parsed before dispatch.
#[derive(Clone, Copy, PartialEq, Eq, Structural, Debug)]
pub enum ParseStrategy {
    /// The text goes to the engine unmodified.
    SqlPassthrough,
    /// The dotted `collection.operation` notation.
    DocumentDotted,
    /// Whitespace tokenization.
    KeyValueTokens,
}

/// The backend variant named by a descriptor's kind label, if any.
pub open spec fn spec_backend_kind(kind: Seq<char>) -> Option<BackendKind> {
    if kind == "sqlite"@ {
        Some(BackendKind::Relational(RelationalEngine::Sqlite))
    } else if kind == "postgresql"@ {
        Some(BackendKind::Relational(RelationalEngine::Postgres))
    } else if kind == "mysql"@ || kind == "mariadb"@ {
        Some(BackendKind::Relational(RelationalEngine::MySqlFamily))
    } else if kind == "mongodb"@ {
        Some(BackendKind::Document)
    } else if kind == "redis"@ {
        Some(BackendKind::KeyValue)
    } else {
        None
    }
}

/// Classifies a backend kind label, rejecting kinds this core does not
/// implement.
pub fn parse_backend_kind(kind: &str) -> (r: Result<BackendKind, DbError>)
    ensures
        match r {
            Ok(b) => spec_backend_kind(kind@) == Some(b),
            Err(e) => spec_backend_kind(kind@) is None && (e matches DbError::UnsupportedBackend(k)
                && k@ == kind@),
        },
{
    if str_eq(kind, "sqlite") {
        Ok(BackendKind::Relational(RelationalEngine::Sqlite))
    } else if str_eq(kind, "postgresql") {
        Ok(BackendKind::Relational(RelationalEngine::Postgres))
    } else if str_eq(kind, "mysql") || str_eq(kind, "mariadb") {
        Ok(BackendKind::Relational(RelationalEngine::MySqlFamily))
    } else if str_eq(kind, "mongodb") {
        Ok(BackendKind::Document)
    } else if str_eq(kind, "redis") {
        Ok(BackendKind::KeyValue)
    } else {
        Err(DbError::UnsupportedBackend(String::from_str(kind)))
    }
}

/// The parse strategy of each backend variant; exhaustive by construction.
pub fn parse_strategy(kind: BackendKind) -> (r: ParseStrategy)
    ensures
        r == match kind {
            BackendKind::Relational(_) => ParseStrategy::SqlPassthrough,
            BackendKind::Document => ParseStrategy::DocumentDotted,
            BackendKind::KeyValue => ParseStrategy::KeyValueTokens,
        },
{
    match kind {
        BackendKind::Relational(_) => ParseStrategy::SqlPassthrough,
        BackendKind::Document => ParseStrategy::DocumentDotted,
        BackendKind::KeyValue => ParseStrategy::KeyValueTokens,
    }
}

} // verus!
