//! The key-value driver's logic: whitespace tokenization of commands, the
//! type-aware shaping of read results, key listing with the time-to-live
//! sentinel mapping, and the connection URL.
//!
//! The network round-trips themselves (the liveness probe, the reads) happen
//! at the driver edge; everything here is the decision and assembly logic
//! around them.

use crate::error::DbError;
use crate::tabular::QueryRow;
use crate::text::{spec_dec, spec_opt_str, spec_tokens, tokenize, u64_to_string, views_of};
use crate::types::{ColumnInfo, ConnectionConfig, TableInfo};
use crate::value::{double_bits_finite, nonfinite_label, spec_nonfinite_label, Value};
use vstd::prelude::*;

verus! {

/// The connection URL for a key-value store, exactly as the native client
/// expects it.
pub open spec fn spec_kv_url(cfg: ConnectionConfig) -> Seq<char> {
    "redis://"@ + cfg.username@ + ":"@ + spec_opt_str(cfg.password) + "@"@ + cfg.host@ + ":"@
        + spec_dec(cfg.port as int) + "/"@ + cfg.database@
}

/// Builds the key-value connection URL from a descriptor.
pub fn kv_connection_url(cfg: &ConnectionConfig) -> (r: String)
    ensures
        r@ == spec_kv_url(*cfg),
{
    let mut url = String::from_str("redis://");
    url.append(cfg.username.as_str());
    url.append(":");
    match &cfg.password {
        Some(p) => url.append(p.as_str()),
        None => (),
    }
    url.append("@");
    url.append(cfg.host.as_str());
    url.append(":");
    let port = u64_to_string(cfg.port as u64);
    url.append(port.as_str());
    url.append("/");
    url.append(cfg.database.as_str());
    url
}

/// The liveness probe reply that counts as success.
pub fn probe_reply_ok(reply: &str) -> (r: bool)
    ensures
        r == (reply@ == "PONG"@),
{
    crate::text::str_eq(reply, "PONG")
}

/// Splits a raw command line into its whitespace-separated tokens: the first
/// is the command name, the rest are positional arguments. An all-whitespace
/// line cannot be dispatched and is malformed.
pub fn plan_kv_command(cmd: &str) -> (r: Result<Vec<String>, DbError>)
    ensures
        match r {
            Ok(tokens) => views_of(tokens@) == spec_tokens(cmd@) && tokens@.len() > 0,
            Err(e) => spec_tokens(cmd@).len() == 0 && (e matches DbError::MalformedCommand(m)
                && m@ == "Empty command"@),
        },
{
    let tokens = tokenize(cmd);
    if tokens.len() == 0 {
        Err(DbError::MalformedCommand(String::from_str("Empty command")))
    } else {
        Ok(tokens)
    }
}

/// Which size metric applies to a key of a given native type tag.
#[derive(Clone, Copy, PartialEq, Eq, Structural, Debug)]
pub enum SizeProbe {
    StringLength,
    ListLength,
    SetCardinality,
    SortedSetCardinality,
    HashFieldCount,
    /// Unrecognized types report size zero without a probe.
    NoSize,
}

/// The size metric for a native type tag.
pub open spec fn spec_size_probe(tag: Seq<char>) -> SizeProbe {
    if tag == "string"@ {
        SizeProbe::StringLength
    } else if tag == "list"@ {
        SizeProbe::ListLength
    } else if tag == "set"@ {
        SizeProbe::SetCardinality
    } else if tag == "zset"@ {
        SizeProbe::SortedSetCardinality
    } else if tag == "hash"@ {
        SizeProbe::HashFieldCount
    } else {
        SizeProbe::NoSize
    }
}

/// Decides which size metric to fetch for a key of the given type tag.
pub fn size_probe_for(tag: &str) -> (r: SizeProbe)
    ensures
        r == spec_size_probe(tag@),
{
    if crate::text::str_eq(tag, "string") {
        SizeProbe::StringLength
    } else if crate::text::str_eq(tag, "list") {
        SizeProbe::ListLength
    } else if crate::text::str_eq(tag, "set") {
        SizeProbe::SetCardinality
    } else if crate::text::str_eq(tag, "zset") {
        SizeProbe::SortedSetCardinality
    } else if crate::text::str_eq(tag, "hash") {
        SizeProbe::HashFieldCount
    } else {
        SizeProbe::NoSize
    }
}

/// Maps the native time-to-live reply to the surfaced expiry: the no-expiry
/// sentinel (and any other negative reply) becomes an explicit absent marker,
/// and an expiry of N seconds is reported as exactly N. A negative number is
/// never surfaced.
pub fn normalize_ttl(ttl: i64) -> (r: Option<i64>)
    ensures
        r == if ttl < 0 {
            Option::<i64>::None
        } else {
            Option::<i64>::Some(ttl)
        },
        r matches Some(n) ==> n >= 0,
{
    if ttl < 0 {
        None
    } else {
        Some(ttl)
    }
}

/// One listed key: its name, native type tag, size metric and normalized
/// expiry.
pub struct KeyInfo {
    pub key: String,
    pub key_type: String,
    pub size: usize,
    pub ttl: Option<i64>,
}

/// Assembles one listing entry from the fetched facts about a key, applying
/// the expiry normalization.
pub fn key_entry(key: String, key_type: String, size: usize, ttl: i64) -> (r: KeyInfo)
    ensures
        r.key == key,
        r.key_type == key_type,
        r.size == size,
        r.ttl == if ttl < 0 {
            Option::<i64>::None
        } else {
            Option::<i64>::Some(ttl)
        },
        r.ttl matches Some(n) ==> n >= 0,
{
    let t = normalize_ttl(ttl);
    KeyInfo { key, key_type, size, ttl: t }
}

/// What a type-aware read fetched for one key, per native type.
pub enum KvFetch {
    /// A plain string value.
    Str(String),
    /// List elements in list order.
    List(Vec<String>),
    /// Hash field/value pairs in the order the store returned them.
    Hash(Vec<(String, String)>),
    /// Set members in the order the store returned them (no order is
    /// guaranteed by the store).
    SetMembers(Vec<String>),
    /// Sorted-set members with their score bits, in rank order.
    ZSet(Vec<(String, u64)>),
    /// The key has a type this core does not read; the tag is carried along.
    Unknown(String),
}

/// The score cell of a sorted-set row: a finite score is a double, a
/// non-finite score degrades to its diagnostic text.
pub open spec fn score_cell(bits: u64, v: Value) -> bool {
    if double_bits_finite(bits) {
        v == Value::Double(bits)
    } else {
        v matches Value::Str(t) && t@ == spec_nonfinite_label(bits)
    }
}

/// The exact tabular shape of a type-aware read, per fetched variant.
pub open spec fn kv_result_shape(key: String, fetch: KvFetch, r: QueryRow) -> bool {
    match fetch {
        KvFetch::Str(v) => {
            &&& views_of(r.columns@) == seq!["key"@, "value"@]
            &&& views_of(r.types@) == seq!["String"@, "String"@]
            &&& r.rows@.len() == 1
            &&& r.rows@[0]@ == seq![Value::Str(key), Value::Str(v)]
        },
        KvFetch::List(vs) => {
            &&& views_of(r.columns@) == seq!["index"@, "value"@]
            &&& views_of(r.types@) == seq!["Int"@, "String"@]
            &&& r.rows@.len() == vs@.len()
            &&& forall|j: int|
                0 <= j < vs@.len() ==> (#[trigger] r.rows@[j])@ == seq![
                    Value::Int((j + 1) as i64),
                    Value::Str(vs@[j]),
                ]
        },
        KvFetch::Hash(entries) => {
            &&& views_of(r.columns@) == seq!["field"@, "value"@]
            &&& views_of(r.types@) == seq!["String"@, "String"@]
            &&& r.rows@.len() == entries@.len()
            &&& forall|j: int|
                0 <= j < entries@.len() ==> (#[trigger] r.rows@[j])@ == seq![
                    Value::Str(entries@[j].0),
                    Value::Str(entries@[j].1),
                ]
        },
        KvFetch::SetMembers(members) => {
            &&& views_of(r.columns@) == seq!["member"@]
            &&& views_of(r.types@) == seq!["String"@]
            &&& r.rows@.len() == members@.len()
            &&& forall|j: int|
                0 <= j < members@.len() ==> (#[trigger] r.rows@[j])@ == seq![
                    Value::Str(members@[j]),
                ]
        },
        KvFetch::ZSet(pairs) => {
            &&& views_of(r.columns@) == seq!["member"@, "score"@]
            &&& views_of(r.types@) == seq!["String"@, "Double"@]
            &&& r.rows@.len() == pairs@.len()
            &&& forall|j: int|
                0 <= j < pairs@.len() ==> {
                    &&& (#[trigger] r.rows@[j])@.len() == 2
                    &&& r.rows@[j]@[0] == Value::Str(pairs@[j].0)
                    &&& score_cell(pairs@[j].1, r.rows@[j]@[1])
                }
        },
        KvFetch::Unknown(tag) => {
            &&& views_of(r.columns@) == seq!["error"@]
            &&& views_of(r.types@) == seq!["String"@]
            &&& r.rows@.len() == 1
            &&& r.rows@[0]@.len() == 1
            &&& r.rows@[0]@[0] matches Value::Str(t) && t@ == "Unsupported type: "@ + tag@
        },
    }
}

/// Shapes the result of a type-aware read into the tabular contract:
/// one key/value row for a string, one indexed row per list element
/// (1-based), one row per hash pair, per set member, or per sorted-set
/// member with its score.
pub fn build_value_result(key: String, fetch: KvFetch) -> (r: QueryRow)
    requires
        fetch matches KvFetch::List(vs) ==> vs@.len() <= i64::MAX,
    ensures
        r.wf(),
        kv_result_shape(key, fetch, r),
{
    match fetch {
        KvFetch::Str(v) => {
            let columns = two_columns("key", "value");
            let types = two_columns("String", "String");
            let mut row: Vec<Value> = Vec::new();
            row.push(Value::Str(key));
            row.push(Value::Str(v));
            let mut rows: Vec<Vec<Value>> = Vec::new();
            proof {
                assert(row@ =~= seq![Value::Str(key), Value::Str(v)]);
            }
            rows.push(row);
            QueryRow { columns, types, rows }
        },
        KvFetch::List(vs) => {
            let columns = two_columns("index", "value");
            let types = two_columns("Int", "String");
            let mut rows: Vec<Vec<Value>> = Vec::new();
            let mut rest = vs;
            let ghost orig = rest@;
            proof {
                assert(orig.subrange(0, orig.len() as int) =~= orig);
            }
            while rest.len() > 0
                invariant
                    orig.len() <= i64::MAX,
                    rows@.len() + rest@.len() == orig.len(),
                    rest@ == orig.subrange(rows@.len() as int, orig.len() as int),
                    forall|j: int|
                        0 <= j < rows@.len() ==> (#[trigger] rows@[j])@ == seq![
                            Value::Int((j + 1) as i64),
                            Value::Str(orig[j]),
                        ],
                decreases rest@.len(),
            {
                let ghost j = rows@.len() as int;
                let v = rest.remove(0);
                proof {
                    assert(v == orig[j]);
                    assert(rest@ =~= orig.subrange(j + 1, orig.len() as int));
                }
                let idx: i64 = (rows.len() as i64) + 1;
                let mut row: Vec<Value> = Vec::new();
                row.push(Value::Int(idx));
                row.push(Value::Str(v));
                proof {
                    assert(row@ =~= seq![Value::Int((j + 1) as i64), Value::Str(orig[j])]);
                }
                rows.push(row);
            }
            QueryRow { columns, types, rows }
        },
        KvFetch::Hash(entries) => {
            let columns = two_columns("field", "value");
            let types = two_columns("String", "String");
            let mut rows: Vec<Vec<Value>> = Vec::new();
            let mut rest = entries;
            let ghost orig = rest@;
            proof {
                assert(orig.subrange(0, orig.len() as int) =~= orig);
            }
            while rest.len() > 0
                invariant
                    rows@.len() + rest@.len() == orig.len(),
                    rest@ == orig.subrange(rows@.len() as int, orig.len() as int),
                    forall|j: int|
                        0 <= j < rows@.len() ==> (#[trigger] rows@[j])@ == seq![
                            Value::Str(orig[j].0),
                            Value::Str(orig[j].1),
                        ],
                decreases rest@.len(),
            {
                let ghost j = rows@.len() as int;
                let (f, v) = rest.remove(0);
                proof {
                    assert((f, v) == orig[j]);
                    assert(rest@ =~= orig.subrange(j + 1, orig.len() as int));
                }
                let mut row: Vec<Value> = Vec::new();
                row.push(Value::Str(f));
                row.push(Value::Str(v));
                proof {
                    assert(row@ =~= seq![Value::Str(orig[j].0), Value::Str(orig[j].1)]);
                }
                rows.push(row);
            }
            QueryRow { columns, types, rows }
        },
        KvFetch::SetMembers(members) => {
            let columns = one_column("member");
            let types = one_column("String");
            let mut rows: Vec<Vec<Value>> = Vec::new();
            let mut rest = members;
            let ghost orig = rest@;
            proof {
                assert(orig.subrange(0, orig.len() as int) =~= orig);
            }
            while rest.len() > 0
                invariant
                    rows@.len() + rest@.len() == orig.len(),
                    rest@ == orig.subrange(rows@.len() as int, orig.len() as int),
                    forall|j: int|
                        0 <= j < rows@.len() ==> (#[trigger] rows@[j])@ == seq![
                            Value::Str(orig[j]),
                        ],
                decreases rest@.len(),
            {
                let ghost j = rows@.len() as int;
                let m = rest.remove(0);
                proof {
                    assert(m == orig[j]);
                    assert(rest@ =~= orig.subrange(j + 1, orig.len() as int));
                }
                let mut row: Vec<Value> = Vec::new();
                row.push(Value::Str(m));
                proof {
                    assert(row@ =~= seq![Value::Str(orig[j])]);
                }
                rows.push(row);
            }
            QueryRow { columns, types, rows }
        },
        KvFetch::ZSet(pairs) => {
            let columns = two_columns("member", "score");
            let types = two_columns("String", "Double");
            let mut rows: Vec<Vec<Value>> = Vec::new();
            let mut rest = pairs;
            let ghost orig = rest@;
            proof {
                assert(orig.subrange(0, orig.len() as int) =~= orig);
            }
            while rest.len() > 0
                invariant
                    rows@.len() + rest@.len() == orig.len(),
                    rest@ == orig.subrange(rows@.len() as int, orig.len() as int),
                    forall|j: int|
                        0 <= j < rows@.len() ==> {
                            &&& (#[trigger] rows@[j])@.len() == 2
                            &&& rows@[j]@[0] == Value::Str(orig[j].0)
                            &&& score_cell(orig[j].1, rows@[j]@[1])
                        },
                decreases rest@.len(),
            {
                let ghost j = rows@.len() as int;
                let (m, bits) = rest.remove(0);
                proof {
                    assert((m, bits) == orig[j]);
                    assert(rest@ =~= orig.subrange(j + 1, orig.len() as int));
                }
                let score: Value = if crate::value::double_bits_finite_exec(bits) {
                    Value::Double(bits)
                } else {
                    Value::Str(nonfinite_label(bits))
                };
                let mut row: Vec<Value> = Vec::new();
                row.push(Value::Str(m));
                row.push(score);
                rows.push(row);
            }
            QueryRow { columns, types, rows }
        },
        KvFetch::Unknown(tag) => {
            let columns = one_column("error");
            let types = one_column("String");
            let mut msg = String::from_str("Unsupported type: ");
            msg.append(tag.as_str());
            let mut row: Vec<Value> = Vec::new();
            row.push(Value::Str(msg));
            let mut rows: Vec<Vec<Value>> = Vec::new();
            rows.push(row);
            QueryRow { columns, types, rows }
        },
    }
}

/// The fixed success result of a generic command: a single "OK" marker row.
pub fn ok_result() -> (r: QueryRow)
    ensures
        r.wf(),
        views_of(r.columns@) == seq!["OK"@],
        views_of(r.types@) == seq!["String"@],
        r.rows@.len() == 1,
        r.rows@[0]@.len() == 1,
        r.rows@[0]@[0] matches Value::Str(t) && t@ == "OK"@,
{
    let columns = one_column("OK");
    let types = one_column("String");
    let mut row: Vec<Value> = Vec::new();
    row.push(Value::Str(String::from_str("OK")));
    let mut rows: Vec<Vec<Value>> = Vec::new();
    rows.push(row);
    QueryRow { columns, types, rows }
}

/// The synthetic schema entry of a key-value namespace: one "keys" unit with
/// fixed name/type/size descriptors and the listed key count.
pub fn keys_schema_entry(database: String, key_count: u64) -> (r: TableInfo)
    ensures
        r.name@ == "keys"@,
        r.schema matches Some(s) && s == database,
        r.kind@ == "redis_keys"@,
        r.columns@.len() == 3,
        r.columns@[0].name@ == "name"@ && r.columns@[0].column_type@ == "String"@
            && r.columns@[0].is_primary_key && !r.columns@[0].nullable,
        r.columns@[1].name@ == "type"@ && r.columns@[1].column_type@ == "String"@
            && !r.columns@[1].is_primary_key && !r.columns@[1].nullable,
        r.columns@[2].name@ == "size"@ && r.columns@[2].column_type@ == "Int"@
            && !r.columns@[2].is_primary_key && !r.columns@[2].nullable,
        forall|i: int| 0 <= i < 3 ==> !(#[trigger] r.columns@[i]).is_foreign_key,
        r.row_count matches Some(n) && n == key_count,
        r.size is None,
{
    let mut columns: Vec<ColumnInfo> = Vec::new();
    columns.push(plain_column("name", "String", true));
    columns.push(plain_column("type", "String", false));
    columns.push(plain_column("size", "Int", false));
    TableInfo {
        name: String::from_str("keys"),
        schema: Some(database),
        kind: String::from_str("redis_keys"),
        columns,
        row_count: Some(key_count),
        size: None,
    }
}

/// A non-null string-ish descriptor column of the synthetic key listing.
fn plain_column(name: &str, column_type: &str, primary: bool) -> (r: ColumnInfo)
    ensures
        r.name@ == name@,
        r.column_type@ == column_type@,
        !r.nullable,
        r.default_value is None,
        r.is_primary_key == primary,
        !r.is_foreign_key,
        r.foreign_key_table is None,
        r.foreign_key_column is None,
{
    ColumnInfo {
        name: String::from_str(name),
        column_type: String::from_str(column_type),
        nullable: false,
        default_value: None,
        is_primary_key: primary,
        is_foreign_key: false,
        foreign_key_table: None,
        foreign_key_column: None,
    }
}

/// A one-entry header list.
fn one_column(a: &str) -> (r: Vec<String>)
    ensures
        r@.len() == 1,
        views_of(r@) == seq![a@],
{
    let mut v: Vec<String> = Vec::new();
    v.push(String::from_str(a));
    proof {
        assert(views_of(v@) =~= seq![a@]);
    }
    v
}

/// A two-entry header list.
fn two_columns(a: &str, b: &str) -> (r: Vec<String>)
    ensures
        r@.len() == 2,
        views_of(r@) == seq![a@, b@],
{
    let mut v: Vec<String> = Vec::new();
    v.push(String::from_str(a));
    v.push(String::from_str(b));
    proof {
        assert(views_of(v@) =~= seq![a@, b@]);
    }
    v
}

} // verus!
