//! The document driver's logic: the dotted `collection.operation` command
//! grammar, filter validation, the growing-schema normalization of found
//! documents into the tabular contract, and collection introspection.
//!
//! The cursor iteration and the collection round-trips happen at the driver
//! edge; it hands the materialized documents over as plain values.

use crate::error::DbError;
use crate::tabular::QueryRow;
use crate::text::{
    lemma_find_char_at, spec_find_char, spec_starts_with, spec_trim_start, str_eq,
    str_starts_with, trim_start, views_of,
};
use crate::types::{ColumnInfo, ConnectionConfig, TableInfo};
use crate::value::Value;
use vstd::prelude::*;

verus! {

/// The connection string for a document store: credentials only when a
/// username is present.
pub open spec fn spec_doc_url(cfg: ConnectionConfig) -> Seq<char> {
    if cfg.username@.len() == 0 {
        "mongodb://"@ + cfg.host@ + ":"@ + crate::text::spec_dec(cfg.port as int) + "/"@
            + cfg.database@
    } else {
        "mongodb://"@ + cfg.username@ + ":"@ + crate::text::spec_opt_str(cfg.password) + "@"@
            + cfg.host@ + ":"@ + crate::text::spec_dec(cfg.port as int) + "/"@ + cfg.database@
    }
}

/// Builds the document store connection string from a descriptor.
pub fn doc_connection_url(cfg: &ConnectionConfig) -> (r: String)
    ensures
        r@ == spec_doc_url(*cfg),
{
    let mut url = String::from_str("mongodb://");
    if cfg.username.as_str().unicode_len() > 0 {
        url.append(cfg.username.as_str());
        url.append(":");
        match &cfg.password {
            Some(p) => url.append(p.as_str()),
            None => (),
        }
        url.append("@");
    }
    url.append(cfg.host.as_str());
    url.append(":");
    let port = crate::text::u64_to_string(cfg.port as u64);
    url.append(port.as_str());
    url.append("/");
    url.append(cfg.database.as_str());
    url
}

/// A dispatchable document command: the collection it addresses and the
/// operation, split on the first dot.
#[derive(Debug)]
pub enum DocCommand {
    /// Materialize every document matching the filter text.
    Find { collection: String, filter: String },
    /// Count all documents of the collection.
    Count { collection: String },
}

/// Parses the dotted notation: the collection is everything before the first
/// dot, the operation is the rest with leading whitespace dropped. `find(`
/// must close its parenthesis; `count()` is matched by literal prefix; any
/// other operation is recognized as unsupported.
pub fn parse_document_command(s: &str) -> (r: Result<DocCommand, DbError>)
    ensures
        ({
            let d = spec_find_char(s@, '.');
            let cmd = spec_trim_start(s@.subrange(d + 1, s@.len() as int));
            match r {
                Ok(DocCommand::Find { collection, filter }) => {
                    &&& d >= 0
                    &&& collection@ == s@.subrange(0, d)
                    &&& spec_starts_with(cmd, "find("@)
                    &&& cmd.len() >= 6 && cmd[cmd.len() - 1] == ')'
                    &&& filter@ == cmd.subrange(5, cmd.len() - 1)
                },
                Ok(DocCommand::Count { collection }) => {
                    &&& d >= 0
                    &&& collection@ == s@.subrange(0, d)
                    &&& !spec_starts_with(cmd, "find("@)
                    &&& spec_starts_with(cmd, "count()"@)
                },
                Err(e) => {
                    ||| d < 0 && (e matches DbError::MalformedCommand(m) && m@
                        == "Invalid MQL format. Use: collection.command"@)
                    ||| d >= 0 && spec_starts_with(cmd, "find("@) && !(cmd.len() >= 6 && cmd[cmd.len()
                        - 1] == ')') && (e matches DbError::MalformedCommand(m) && m@
                        == "Malformed find command"@)
                    ||| d >= 0 && !spec_starts_with(cmd, "find("@) && !spec_starts_with(
                        cmd,
                        "count()"@,
                    ) && (e matches DbError::UnsupportedOperation(c) && c@ == cmd)
                },
            }
        }),
{
    let slen = s.unicode_len();
    match crate::text::find_char(s, '.') {
        None => {
            proof {
                lemma_find_char_at(s@, '.', slen as int);
            }
            Err(
                DbError::MalformedCommand(
                    String::from_str("Invalid MQL format. Use: collection.command"),
                ),
            )
        },
        Some(d) => {
            proof {
                lemma_find_char_at(s@, '.', d as int);
            }
            let collection = s.substring_char(0, d).to_owned();
            let rest = s.substring_char(d + 1, slen);
            let cmd = trim_start(rest);
            let cmdlen = cmd.unicode_len();
            if str_starts_with(cmd, "find(") {
                if cmdlen >= 6 && cmd.get_char(cmdlen - 1) == ')' {
                    let filter = cmd.substring_char(5, cmdlen - 1).to_owned();
                    Ok(DocCommand::Find { collection, filter })
                } else {
                    Err(DbError::MalformedCommand(String::from_str("Malformed find command")))
                }
            } else if str_starts_with(cmd, "count()") {
                Ok(DocCommand::Count { collection })
            } else {
                Err(DbError::UnsupportedOperation(cmd.to_owned()))
            }
        },
    }
}

/// Whether a filter text parses as a structured document literal; named
/// here, established by the JSON parser it is checked with.
pub uninterp spec fn json_object_parses(s: Seq<char>) -> bool;

/// A filter text is accepted when it is empty or the literal `{}` (both
/// mean match-all), or parses as a structured document literal.
pub open spec fn spec_filter_ok(f: Seq<char>) -> bool {
    f.len() == 0 || f == "{}"@ || json_object_parses(f)
}

/// Relies on serde_json::from_str targeting a JSON object
/// (serde_json::Map): whether a text parses as a JSON object is a function
/// of its characters alone.
#[verifier::external_body]
fn json_object_check(s: &str) -> (r: bool)
    ensures
        r == json_object_parses(s@),
{
    serde_json::from_str::<serde_json::Map<String, serde_json::Value>>(s).is_ok()
}

/// Validates a find filter: accepted exactly when empty, the literal `{}`,
/// or a parsable document literal. A rejected filter is a fatal error for
/// the call, never degraded.
pub fn validate_find_filter(filter: &str) -> (r: bool)
    ensures
        r == spec_filter_ok(filter@),
{
    if filter.unicode_len() == 0 {
        true
    } else if str_eq(filter, "{}") {
        true
    } else {
        json_object_check(filter)
    }
}

/// The single-cell result of a `count()` command.
pub fn count_result(count: u64) -> (r: QueryRow)
    requires
        count <= i64::MAX,
    ensures
        r.wf(),
        views_of(r.columns@) == seq!["count"@],
        views_of(r.types@) == seq!["Int64"@],
        r.rows@.len() == 1,
        r.rows@[0]@.len() == 1,
        r.rows@[0]@[0] == Value::Int(count as i64),
{
    let mut columns: Vec<String> = Vec::new();
    columns.push(String::from_str("count"));
    let mut types: Vec<String> = Vec::new();
    types.push(String::from_str("Int64"));
    let mut row: Vec<Value> = Vec::new();
    row.push(Value::Int(count as i64));
    let mut rows: Vec<Vec<Value>> = Vec::new();
    rows.push(row);
    proof {
        assert(views_of(columns@) =~= seq!["count"@]);
        assert(views_of(types@) =~= seq!["Int64"@]);
    }
    QueryRow { columns, types, rows }
}

/// One native document value as the driver edge hands it over: scalars as
/// plain values, doubles as IEEE-754 bits, identifiers already in their
/// canonical hex form, nested arrays and documents as they came, and a
/// diagnostic text for anything else.
pub enum DocValue {
    Null,
    Bool(bool),
    Int32(i32),
    Int64(i64),
    Double(u64),
    Str(String),
    /// An identifier, rendered as its canonical hex string.
    ObjectId(String),
    Array(Vec<DocValue>),
    Doc(Vec<(String, DocValue)>),
    /// Only a diagnostic textual form is available.
    Other(String),
}

/// What normalizing one document value yields: nulls, booleans and strings
/// carry over, both integer widths land in the 64-bit integer domain, a
/// finite double stays a double while a non-finite one degrades to its
/// diagnostic text, identifiers stay their hex strings, and arrays and
/// documents normalize recursively without flattening.
pub open spec fn doc_value_normalized(v: DocValue, r: Value) -> bool
    decreases v,
{
    match v {
        DocValue::Null => r == Value::Null,
        DocValue::Bool(b) => r == Value::Bool(b),
        DocValue::Int32(i) => r == Value::Int(i as i64),
        DocValue::Int64(i) => r == Value::Int(i),
        DocValue::Double(bits) => if crate::value::double_bits_finite(bits) {
            r == Value::Double(bits)
        } else {
            r matches Value::Str(t) && t@ == crate::value::spec_nonfinite_label(bits)
        },
        DocValue::Str(s) => r matches Value::Str(t) && t == s,
        DocValue::ObjectId(h) => r matches Value::Str(t) && t == h,
        DocValue::Array(a) => r matches Value::Array(ra) && ra@.len() == a@.len() && (forall|
            i: int,
        |
            0 <= i < a@.len() ==> doc_value_normalized(a@[i], #[trigger] ra@[i])),
        DocValue::Doc(fs) => r matches Value::Object(ro) && ro@.len() == fs@.len() && (forall|
            i: int,
        |
            0 <= i < fs@.len() ==> (#[trigger] ro@[i]).0 == fs@[i].0 && doc_value_normalized(
                fs@[i].1,
                ro@[i].1,
            )),
        DocValue::Other(d) => r matches Value::Str(t) && t == d,
    }
}

/// Normalizes one document value into the generic domain, recursively.
/// Total: no input is rejected and nothing here can fail.
#[verifier::loop_isolation(false)]
pub fn normalize_document_value(v: &DocValue) -> (r: Value)
    ensures
        doc_value_normalized(*v, r),
    decreases *v,
{
    broadcast use vstd::std_specs::vec::group_vec_axioms;

    match v {
        DocValue::Null => Value::Null,
        DocValue::Bool(b) => Value::Bool(*b),
        DocValue::Int32(i) => Value::Int(*i as i64),
        DocValue::Int64(i) => Value::Int(*i),
        DocValue::Double(bits) => if crate::value::double_bits_finite_exec(*bits) {
            Value::Double(*bits)
        } else {
            Value::Str(crate::value::nonfinite_label(*bits))
        },
        DocValue::Str(s) => Value::Str(s.clone()),
        DocValue::ObjectId(h) => Value::Str(h.clone()),
        DocValue::Array(a) => {
            let n = a.len();
            let mut out: Vec<Value> = Vec::new();
            let mut i: usize = 0;
            while i < n
                invariant
                    n == a@.len(),
                    i <= n,
                    out@.len() == i,
                    forall|k: int|
                        0 <= k < i ==> doc_value_normalized(a@[k], #[trigger] out@[k]),
                decreases n - i,
            {
                proof {
                    assert(decreases_to!(*v => *a));
                    assert(decreases_to!(*a => a@[i as int]));
                }
                let e = normalize_document_value(&a[i]);
                out.push(e);
                i = i + 1;
            }
            Value::Array(out)
        },
        DocValue::Doc(fs) => {
            let n = fs.len();
            let mut out: Vec<(String, Value)> = Vec::new();
            let mut i: usize = 0;
            while i < n
                invariant
                    n == fs@.len(),
                    i <= n,
                    out@.len() == i,
                    forall|k: int|
                        0 <= k < i ==> (#[trigger] out@[k]).0 == fs@[k].0 && doc_value_normalized(
                            fs@[k].1,
                            out@[k].1,
                        ),
                decreases n - i,
            {
                proof {
                    assert(decreases_to!(*v => *fs));
                    assert(decreases_to!(*fs => fs@[i as int].1));
                }
                let e = normalize_document_value(&fs[i].1);
                out.push((fs[i].0.clone(), e));
                i = i + 1;
            }
            Value::Object(out)
        },
        DocValue::Other(d) => Value::Str(d.clone()),
    }
}

/// One materialized document as the driver edge hands it over: the
/// identifier already rendered in its canonical hex form, and the fields in
/// document order, each already normalized to a generic value.
pub struct FoundDoc {
    pub id: String,
    pub fields: Vec<(String, Value)>,
}

/// A (column name, type label) pair is already in the header.
pub open spec fn header_contains(h: Seq<(Seq<char>, Seq<char>)>, k: Seq<char>) -> bool {
    exists|i: int| 0 <= i < h.len() && h[i].0 == k
}

/// Accretes the header over one document's fields: a key not seen before
/// (and not the identifier) is appended with the type label of its first
/// value; everything else leaves the header unchanged.
pub open spec fn accrete_fields(
    h: Seq<(Seq<char>, Seq<char>)>,
    fields: Seq<(String, Value)>,
) -> Seq<(Seq<char>, Seq<char>)>
    decreases fields.len(),
{
    if fields.len() == 0 {
        h
    } else {
        let k = fields[0].0@;
        let h2 = if k == "_id"@ || header_contains(h, k) {
            h
        } else {
            h.push((k, crate::value::spec_type_label(fields[0].1)))
        };
        accrete_fields(h2, fields.subrange(1, fields.len() as int))
    }
}

/// Accretes the header over a run of documents, in order.
pub open spec fn accrete_docs(
    h: Seq<(Seq<char>, Seq<char>)>,
    docs: Seq<FoundDoc>,
) -> Seq<(Seq<char>, Seq<char>)>
    decreases docs.len(),
{
    if docs.len() == 0 {
        h
    } else {
        accrete_docs(accrete_fields(h, docs[0].fields@), docs.subrange(1, docs.len() as int))
    }
}

/// The header of a found-documents result: the identifier column first,
/// then every key in first-seen order.
pub open spec fn spec_header(docs: Seq<FoundDoc>) -> Seq<(Seq<char>, Seq<char>)> {
    accrete_docs(seq![("_id"@, "ObjectId"@)], docs)
}

/// Accretion only appends: the incoming header is a prefix of the result.
proof fn lemma_accrete_fields_prefix(h: Seq<(Seq<char>, Seq<char>)>, fields: Seq<(String, Value)>)
    ensures
        h.is_prefix_of(accrete_fields(h, fields)),
    decreases fields.len(),
{
    if fields.len() == 0 {
        assert(h =~= accrete_fields(h, fields).subrange(0, h.len() as int));
    } else {
        let k = fields[0].0@;
        let h2 = if k == "_id"@ || header_contains(h, k) {
            h
        } else {
            h.push((k, crate::value::spec_type_label(fields[0].1)))
        };
        let tail = fields.subrange(1, fields.len() as int);
        lemma_accrete_fields_prefix(h2, tail);
        let out = accrete_fields(h2, tail);
        assert(h2 =~= out.subrange(0, h2.len() as int));
        assert(h =~= out.subrange(0, h.len() as int));
    }
}

/// Accretion over documents only appends as well.
proof fn lemma_accrete_docs_prefix(h: Seq<(Seq<char>, Seq<char>)>, docs: Seq<FoundDoc>)
    ensures
        h.is_prefix_of(accrete_docs(h, docs)),
    decreases docs.len(),
{
    if docs.len() == 0 {
        assert(h =~= accrete_docs(h, docs).subrange(0, h.len() as int));
    } else {
        let h2 = accrete_fields(h, docs[0].fields@);
        let tail = docs.subrange(1, docs.len() as int);
        lemma_accrete_fields_prefix(h, docs[0].fields@);
        lemma_accrete_docs_prefix(h2, tail);
        let out = accrete_docs(h2, tail);
        assert(h2 =~= out.subrange(0, h2.len() as int));
        assert(h =~= h2.subrange(0, h.len() as int));
        assert(h =~= out.subrange(0, h.len() as int));
    }
}

/// Accreting a concatenation is accreting one run after the other.
proof fn lemma_accrete_docs_append(
    h: Seq<(Seq<char>, Seq<char>)>,
    a: Seq<FoundDoc>,
    b: Seq<FoundDoc>,
)
    ensures
        accrete_docs(h, a + b) == accrete_docs(accrete_docs(h, a), b),
    decreases a.len(),
{
    if a.len() == 0 {
        assert(a + b =~= b);
    } else {
        let h2 = accrete_fields(h, a[0].fields@);
        assert((a + b)[0] == a[0]);
        assert((a + b).subrange(1, (a + b).len() as int) =~= a.subrange(1, a.len() as int) + b);
        lemma_accrete_docs_append(h2, a.subrange(1, a.len() as int), b);
    }
}

/// Column accretion is monotonic and order-preserving: the header after any
/// shorter run of documents is a prefix of the header after a longer run,
/// so once a key is seen it occupies a fixed column position for all
/// subsequent rows.
pub proof fn lemma_column_accretion_monotonic(docs: Seq<FoundDoc>, n1: int, n2: int)
    requires
        0 <= n1 <= n2 <= docs.len(),
    ensures
        spec_header(docs.subrange(0, n1)).is_prefix_of(spec_header(docs.subrange(0, n2))),
{
    let a = docs.subrange(0, n1);
    let b = docs.subrange(n1, n2);
    assert(docs.subrange(0, n2) =~= a + b);
    lemma_accrete_docs_append(seq![("_id"@, "ObjectId"@)], a, b);
    lemma_accrete_docs_prefix(spec_header(a), b);
}

/// Header names are pairwise distinct.
pub open spec fn header_distinct(h: Seq<(Seq<char>, Seq<char>)>) -> bool {
    forall|i: int, j: int| 0 <= i < j < h.len() ==> h[i].0 != h[j].0
}

/// Accretion keeps header names distinct (only unseen keys are appended).
proof fn lemma_accrete_fields_distinct(
    h: Seq<(Seq<char>, Seq<char>)>,
    fields: Seq<(String, Value)>,
)
    requires
        header_distinct(h),
    ensures
        header_distinct(accrete_fields(h, fields)),
    decreases fields.len(),
{
    if fields.len() == 0 {
    } else {
        let k = fields[0].0@;
        if k == "_id"@ || header_contains(h, k) {
            lemma_accrete_fields_distinct(h, fields.subrange(1, fields.len() as int));
        } else {
            let h2 = h.push((k, crate::value::spec_type_label(fields[0].1)));
            assert(header_distinct(h2)) by {
                assert forall|i: int, j: int| 0 <= i < j < h2.len() implies h2[i].0 != h2[j].0 by {
                    if j == h.len() {
                        assert(h2[j].0 == k);
                        assert(h2[i] == h[i]);
                        assert(!header_contains(h, k));
                        if h[i].0 == k {
                            assert(header_contains(h, k));
                        }
                    } else {
                        assert(h2[i] == h[i]);
                        assert(h2[j] == h[j]);
                    }
                }
            }
            lemma_accrete_fields_distinct(h2, fields.subrange(1, fields.len() as int));
        }
    }
}

/// So does accretion over documents.
proof fn lemma_accrete_docs_distinct(h: Seq<(Seq<char>, Seq<char>)>, docs: Seq<FoundDoc>)
    requires
        header_distinct(h),
    ensures
        header_distinct(accrete_docs(h, docs)),
    decreases docs.len(),
{
    if docs.len() == 0 {
    } else {
        lemma_accrete_fields_distinct(h, docs[0].fields@);
        lemma_accrete_docs_distinct(
            accrete_fields(h, docs[0].fields@),
            docs.subrange(1, docs.len() as int),
        );
    }
}

/// The header of any document run is distinct, starts with the identifier
/// column, and never repeats the identifier.
pub proof fn lemma_header_shape(docs: Seq<FoundDoc>)
    ensures
        header_distinct(spec_header(docs)),
        spec_header(docs).len() >= 1,
        spec_header(docs)[0] == ("_id"@, "ObjectId"@),
        forall|t: int| 1 <= t < spec_header(docs).len() ==> (#[trigger] spec_header(docs)[t]).0
            != "_id"@,
{
    let h0 = seq![("_id"@, "ObjectId"@)];
    assert(header_distinct(h0));
    lemma_accrete_docs_distinct(h0, docs);
    lemma_accrete_docs_prefix(h0, docs);
    let h = spec_header(docs);
    assert(h0 =~= h.subrange(0, 1));
    assert(h[0] == h.subrange(0, 1)[0]);
    assert forall|t: int| 1 <= t < h.len() implies (#[trigger] h[t]).0 != "_id"@ by {
        assert(h[0].0 == "_id"@);
    }
}

/// First position of a field named `k`, or -1 when the document lacks it.
pub open spec fn spec_field_index(fields: Seq<(String, Value)>, k: Seq<char>) -> int
    decreases fields.len(),
{
    if fields.len() == 0 {
        -1
    } else if fields[0].0@ == k {
        0
    } else if spec_field_index(fields.subrange(1, fields.len() as int), k) < 0 {
        -1
    } else {
        1 + spec_field_index(fields.subrange(1, fields.len() as int), k)
    }
}

/// What a row reads in column `k`: the first field of that name, or the
/// generic null for a key the document lacks.
pub open spec fn row_value(fields: Seq<(String, Value)>, k: Seq<char>) -> Value {
    if spec_field_index(fields, k) < 0 {
        Value::Null
    } else {
        fields[spec_field_index(fields, k)].1
    }
}

/// `spec_field_index` finds exactly the first field of the name, and -1
/// exactly when none exists.
proof fn lemma_field_index_props(fields: Seq<(String, Value)>, k: Seq<char>)
    ensures
        spec_field_index(fields, k) == -1 <==> forall|j: int|
            0 <= j < fields.len() ==> (#[trigger] fields[j]).0@ != k,
        spec_field_index(fields, k) >= 0 ==> {
            &&& spec_field_index(fields, k) < fields.len()
            &&& fields[spec_field_index(fields, k)].0@ == k
            &&& forall|j: int| 0 <= j < spec_field_index(fields, k) ==> (#[trigger] fields[j]).0@
                != k
        },
    decreases fields.len(),
{
    if fields.len() == 0 {
    } else if fields[0].0@ == k {
    } else {
        let tail = fields.subrange(1, fields.len() as int);
        lemma_field_index_props(tail, k);
        assert(forall|j: int| 1 <= j < fields.len() ==> fields[j] == tail[j - 1]);
    }
}

/// Removing a field of a different name leaves what every other column
/// reads unchanged.
proof fn lemma_row_value_remove(fields: Seq<(String, Value)>, i: int, k: Seq<char>)
    requires
        0 <= i < fields.len(),
        fields[i].0@ != k,
    ensures
        spec_field_index(fields.remove(i), k) == if spec_field_index(fields, k) == -1 {
            -1
        } else if spec_field_index(fields, k) < i {
            spec_field_index(fields, k)
        } else {
            spec_field_index(fields, k) - 1
        },
        row_value(fields.remove(i), k) == row_value(fields, k),
    decreases fields.len(),
{
    lemma_field_index_props(fields, k);
    lemma_field_index_props(fields.remove(i), k);
    fields.remove_ensures(i);
    let tail = fields.subrange(1, fields.len() as int);
    if i == 0 {
        assert(fields.remove(0) =~= tail);
    } else {
        if fields[0].0@ == k {
            assert(fields.remove(i)[0] == fields[0]);
        } else {
            lemma_row_value_remove(tail, i - 1, k);
            assert(fields.remove(i).subrange(1, fields.remove(i).len() as int) =~= tail.remove(
                i - 1,
            ));
            assert(fields.remove(i)[0] == fields[0]);
        }
    }
}

/// Takes the first field named `key` out of the document, handing back its
/// value, or the generic null when the document lacks the key.
fn take_field(fields: &mut Vec<(String, Value)>, key: &str) -> (r: Value)
    ensures
        r == row_value(old(fields)@, key@),
        spec_field_index(old(fields)@, key@) < 0 ==> final(fields)@ == old(fields)@,
        spec_field_index(old(fields)@, key@) >= 0 ==> final(fields)@ == old(fields)@.remove(
            spec_field_index(old(fields)@, key@),
        ),
{
    let n = fields.len();
    let mut i: usize = 0;
    while i < n
        invariant
            n == fields@.len(),
            i <= n,
            fields@ == old(fields)@,
            forall|j: int| 0 <= j < i ==> (#[trigger] fields@[j]).0@ != key@,
        decreases n - i,
    {
        if str_eq(fields[i].0.as_str(), key) {
            proof {
                lemma_field_index_props(fields@, key@);
                let idx = spec_field_index(fields@, key@);
                assert(idx != -1);
                if idx < i as int {
                    assert(fields@[idx].0@ != key@);
                } else if idx > i as int {
                    assert(fields@[i as int].0@ != key@);
                }
                assert(idx == i as int);
            }
            let (_, v) = fields.remove(i);
            return v;
        }
        i = i + 1;
    }
    proof {
        lemma_field_index_props(fields@, key@);
    }
    Value::Null
}

/// Normalizes a materialized find result into the tabular contract. The
/// identifier column comes first; every other column is appended the first
/// time its key is seen in any document, in document-field order. Every row
/// has the full final width: a document read in a column whose key it lacks
/// (whether the key appeared before or after it) yields the generic null.
pub fn build_find_result(docs: Vec<FoundDoc>) -> (r: QueryRow)
    ensures
        r.wf(),
        r.columns@.len() == spec_header(docs@).len(),
        r.types@.len() == spec_header(docs@).len(),
        forall|t: int|
            0 <= t < spec_header(docs@).len() ==> (#[trigger] r.columns@[t])@ == spec_header(
                docs@,
            )[t].0 && r.types@[t]@ == spec_header(docs@)[t].1,
        r.rows@.len() == docs@.len(),
        forall|j: int|
            0 <= j < docs@.len() ==> (#[trigger] r.rows@[j])@.len() == spec_header(docs@).len(),
        forall|j: int| 0 <= j < docs@.len() ==> (#[trigger] r.rows@[j])@[0] == Value::Str(
            docs@[j].id,
        ),
        forall|j: int, t: int|
            0 <= j < docs@.len() && 1 <= t < spec_header(docs@).len() ==> (#[trigger] r.rows@[j]@[t])
                == row_value(docs@[j].fields@, spec_header(docs@)[t].0),
{
    let ghost gdocs = docs@;
    let ghost header = spec_header(gdocs);
    proof {
        lemma_header_shape(gdocs);
    }
    // First pass: accrete the column list and its type labels.
    let mut columns: Vec<String> = Vec::new();
    let mut types: Vec<String> = Vec::new();
    columns.push(String::from_str("_id"));
    types.push(String::from_str("ObjectId"));
    let ghost h0: Seq<(Seq<char>, Seq<char>)> = seq![("_id"@, "ObjectId"@)];
    proof {
        assert(header_of(columns@, types@) =~= h0);
        assert(gdocs.subrange(0, gdocs.len() as int) =~= gdocs);
        assert(accrete_docs(h0, gdocs) == header);
    }
    let mut d: usize = 0;
    let ndocs = docs.len();
    while d < ndocs
        invariant
            ndocs == gdocs.len(),
            d <= ndocs,
            docs@ == gdocs,
            columns@.len() == types@.len(),
            header_of(columns@, types@) == accrete_docs(h0, gdocs.subrange(0, d as int)),
            accrete_docs(header_of(columns@, types@), gdocs.subrange(d as int, ndocs as int))
                == header,
        decreases ndocs - d,
    {
        let nf = docs[d].fields.len();
        let ghost gfields = docs@[d as int].fields@;
        let mut f: usize = 0;
        proof {
            let rest = gdocs.subrange(d as int, ndocs as int);
            assert(rest[0] == gdocs[d as int]);
            assert(rest.subrange(1, rest.len() as int) =~= gdocs.subrange(
                d as int + 1,
                ndocs as int,
            ));
            assert(gfields.subrange(0, gfields.len() as int) =~= gfields);
        }
        while f < nf
            invariant
                ndocs == gdocs.len(),
                d < ndocs,
                docs@ == gdocs,
                nf == gfields.len(),
                f <= nf,
                gfields == gdocs[d as int].fields@,
                columns@.len() == types@.len(),
                accrete_fields(
                    header_of(columns@, types@),
                    gfields.subrange(f as int, nf as int),
                ) == accrete_fields(
                    accrete_docs(h0, gdocs.subrange(0, d as int)),
                    gfields,
                ),
            decreases nf - f,
        {
            let ghost pre = header_of(columns@, types@);
            let ghost frest = gfields.subrange(f as int, nf as int);
            proof {
                assert(frest[0] == gfields[f as int]);
                assert(frest.subrange(1, frest.len() as int) =~= gfields.subrange(
                    f as int + 1,
                    nf as int,
                ));
            }
            let key_is_id = str_eq(docs[d].fields[f].0.as_str(), "_id");
            let seen = contains_column(&columns, docs[d].fields[f].0.as_str());
            proof {
                let k = gfields[f as int].0@;
                if seen {
                    let i = choose|i: int| 0 <= i < columns@.len() && (#[trigger] columns@[i])@
                        == k;
                    assert(pre[i].0 == k);
                }
                if header_contains(pre, k) {
                    let i = choose|i: int| 0 <= i < pre.len() && pre[i].0 == k;
                    assert(columns@[i]@ == k);
                }
                assert(seen == header_contains(pre, k));
            }
            if !key_is_id && !seen {
                let label = crate::value::value_type_label(&docs[d].fields[f].1);
                columns.push(docs[d].fields[f].0.clone());
                types.push(label);
                proof {
                    assert(header_of(columns@, types@) =~= pre.push(
                        (gfields[f as int].0@, crate::value::spec_type_label(
                            gfields[f as int].1,
                        )),
                    ));
                }
            }
            f = f + 1;
        }
        proof {
            assert(gfields.subrange(nf as int, nf as int) =~= Seq::<(String, Value)>::empty());
            assert(accrete_fields(header_of(columns@, types@), gfields.subrange(
                nf as int,
                nf as int,
            )) == header_of(columns@, types@));
            assert(gdocs.subrange(0, d as int).push(gdocs[d as int]) =~= gdocs.subrange(
                0,
                d as int + 1,
            ));
            lemma_accrete_docs_snoc(h0, gdocs.subrange(0, d as int), gdocs[d as int]);
        }
        d = d + 1;
    }
    proof {
        assert(gdocs.subrange(0, ndocs as int) =~= gdocs);
        assert(gdocs.subrange(ndocs as int, ndocs as int) =~= Seq::<FoundDoc>::empty());
        assert(header_of(columns@, types@) == header);
    }
    // Second pass: one full-width row per document.
    let width = columns.len();
    let mut rows: Vec<Vec<Value>> = Vec::new();
    let mut rest = docs;
    while rest.len() > 0
        invariant
            width == header.len(),
            width >= 1,
            columns@.len() == width,
            types@.len() == width,
            header_of(columns@, types@) == header,
            header_distinct(header),
            header[0] == ("_id"@, "ObjectId"@),
            rows@.len() + rest@.len() == gdocs.len(),
            rest@ == gdocs.subrange(rows@.len() as int, gdocs.len() as int),
            forall|j: int|
                0 <= j < rows@.len() ==> (#[trigger] rows@[j])@.len() == width,
            forall|j: int| 0 <= j < rows@.len() ==> (#[trigger] rows@[j])@[0] == Value::Str(
                gdocs[j].id,
            ),
            forall|j: int, t: int|
                0 <= j < rows@.len() && 1 <= t < width ==> (#[trigger] rows@[j]@[t]) == row_value(
                    gdocs[j].fields@,
                    header[t].0,
                ),
        decreases rest@.len(),
    {
        let ghost j = rows@.len() as int;
        let doc = rest.remove(0);
        proof {
            assert(doc == gdocs[j]);
            assert(rest@ =~= gdocs.subrange(j + 1, gdocs.len() as int));
        }
        let mut fields = doc.fields;
        let ghost forig = gdocs[j].fields@;
        let mut row: Vec<Value> = Vec::new();
        row.push(Value::Str(doc.id));
        let mut t: usize = 1;
        while t < width
            invariant
                width == header.len(),
                width >= 1,
                columns@.len() == width,
                types@.len() == width,
                header_of(columns@, types@) == header,
                header_distinct(header),
                1 <= t <= width,
                row@.len() == t,
                row@[0] == Value::Str(gdocs[j].id),
                0 <= j < gdocs.len(),
                forig == gdocs[j].fields@,
                forall|u: int|
                    1 <= u < t ==> (#[trigger] row@[u]) == row_value(forig, header[u].0),
                forall|u: int|
                    t <= u < width ==> row_value(fields@, (#[trigger] header[u]).0) == row_value(
                        forig,
                        header[u].0,
                    ),
            decreases width - t,
        {
            let ghost pre_fields = fields@;
            let v = take_field(&mut fields, columns[t].as_str());
            proof {
                assert(columns@[t as int]@ == header[t as int].0);
                let idx = spec_field_index(pre_fields, header[t as int].0);
                if idx >= 0 {
                    lemma_field_index_props(pre_fields, header[t as int].0);
                    assert forall|u: int| t as int + 1 <= u < width implies row_value(
                        fields@,
                        (#[trigger] header[u]).0,
                    ) == row_value(forig, header[u].0) by {
                        assert(header[u].0 != header[t as int].0);
                        assert(pre_fields[idx].0@ != header[u].0);
                        lemma_row_value_remove(pre_fields, idx, header[u].0);
                    }
                }
            }
            row.push(v);
            t = t + 1;
        }
        rows.push(row);
    }
    proof {
        assert forall|t: int| 0 <= t < header.len() implies (#[trigger] columns@[t])@
            == header[t].0 && types@[t]@ == header[t].1 by {
            assert(header_of(columns@, types@)[t] == (columns@[t]@, types@[t]@));
        }
    }
    QueryRow { columns, types, rows }
}

/// The ghost header the two concrete lists stand for.
pub open spec fn header_of(columns: Seq<String>, types: Seq<String>) -> Seq<
    (Seq<char>, Seq<char>),
>
    recommends
        columns.len() == types.len(),
{
    Seq::new(columns.len(), |i: int| (columns[i]@, types[i]@))
}

/// Accreting one more document extends the run.
proof fn lemma_accrete_docs_snoc(
    h: Seq<(Seq<char>, Seq<char>)>,
    docs: Seq<FoundDoc>,
    doc: FoundDoc,
)
    ensures
        accrete_docs(h, docs.push(doc)) == accrete_fields(accrete_docs(h, docs), doc.fields@),
    decreases docs.len(),
{
    if docs.len() == 0 {
        assert(docs.push(doc)[0] == doc);
        assert(docs.push(doc).subrange(1, 1) =~= Seq::<FoundDoc>::empty());
        assert(accrete_docs(h, docs.push(doc)) == accrete_docs(
            accrete_fields(h, doc.fields@),
            Seq::<FoundDoc>::empty(),
        ));
        assert(accrete_docs(accrete_fields(h, doc.fields@), Seq::<FoundDoc>::empty())
            == accrete_fields(h, doc.fields@));
        assert(accrete_docs(h, docs) == h);
    } else {
        assert(docs.push(doc)[0] == docs[0]);
        assert(docs.push(doc).subrange(1, docs.len() as int + 1) =~= docs.subrange(
            1,
            docs.len() as int,
        ).push(doc));
        lemma_accrete_docs_snoc(
            accrete_fields(h, docs[0].fields@),
            docs.subrange(1, docs.len() as int),
            doc,
        );
    }
}

/// Whether the column list already holds a name.
fn contains_column(columns: &Vec<String>, key: &str) -> (r: bool)
    ensures
        r == exists|i: int| 0 <= i < columns@.len() && (#[trigger] columns@[i])@ == key@,
{
    let n = columns.len();
    let mut i: usize = 0;
    while i < n
        invariant
            n == columns@.len(),
            i <= n,
            forall|j: int| 0 <= j < i ==> (#[trigger] columns@[j])@ != key@,
        decreases n - i,
    {
        if str_eq(columns[i].as_str(), key) {
            return true;
        }
        i = i + 1;
    }
    false
}

/// The introspection entry of one collection: schemaless stores expose a
/// single synthetic identifier descriptor.
pub fn collection_entry(name: String, database: String) -> (r: TableInfo)
    ensures
        r.name == name,
        r.schema matches Some(s) && s == database,
        r.kind@ == "collection"@,
        r.columns@.len() == 1,
        r.columns@[0].name@ == "_id"@,
        r.columns@[0].column_type@ == "ObjectId"@,
        !r.columns@[0].nullable,
        r.columns@[0].is_primary_key,
        !r.columns@[0].is_foreign_key,
        r.row_count is None,
        r.size is None,
{
    let mut columns: Vec<ColumnInfo> = Vec::new();
    columns.push(
        ColumnInfo {
            name: String::from_str("_id"),
            column_type: String::from_str("ObjectId"),
            nullable: false,
            default_value: None,
            is_primary_key: true,
            is_foreign_key: false,
            foreign_key_table: None,
            foreign_key_column: None,
        },
    );
    TableInfo {
        name,
        schema: Some(database),
        kind: String::from_str("collection"),
        columns,
        row_count: None,
        size: None,
    }
}

} // verus!
