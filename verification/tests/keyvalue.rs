use dbcore::keyvalue::{
    build_value_result, key_entry, keys_schema_entry, kv_connection_url, normalize_ttl, ok_result,
    plan_kv_command, probe_reply_ok, size_probe_for, KvFetch, SizeProbe,
};
use dbcore::types::ConnectionConfig;
use dbcore::value::Value;

fn s(text: &str) -> String {
    text.to_string()
}

fn cfg() -> ConnectionConfig {
    ConnectionConfig {
        id: s("kv1"),
        name: s("local cache"),
        kind: s("redis"),
        host: s("localhost"),
        port: 6379,
        database: s("0"),
        username: s("user"),
        password: Some(s("pw")),
        ssl: None,
    }
}

#[test]
fn commands_tokenize_on_whitespace() {
    let tokens = plan_kv_command("SET k v").unwrap();
    assert_eq!(tokens, vec![s("SET"), s("k"), s("v")]);
    let tokens = plan_kv_command("  GET\t key1  ").unwrap();
    assert_eq!(tokens, vec![s("GET"), s("key1")]);
}

#[test]
fn values_with_whitespace_cannot_be_one_argument() {
    // a known limitation of the grammar: quoting is not supported
    let tokens = plan_kv_command("SET k \"a b\"").unwrap();
    assert_eq!(tokens, vec![s("SET"), s("k"), s("\"a"), s("b\"")]);
}

#[test]
fn blank_command_is_malformed() {
    let e = plan_kv_command("   ").unwrap_err();
    assert_eq!(e.message(), s("Empty command"));
    assert!(plan_kv_command("").is_err());
}

#[test]
fn size_probe_follows_the_type_tag() {
    assert_eq!(size_probe_for("string"), SizeProbe::StringLength);
    assert_eq!(size_probe_for("list"), SizeProbe::ListLength);
    assert_eq!(size_probe_for("set"), SizeProbe::SetCardinality);
    assert_eq!(size_probe_for("zset"), SizeProbe::SortedSetCardinality);
    assert_eq!(size_probe_for("hash"), SizeProbe::HashFieldCount);
    assert_eq!(size_probe_for("stream"), SizeProbe::NoSize);
}

#[test]
fn ttl_sentinel_maps_to_absent_never_negative() {
    assert_eq!(normalize_ttl(-1), None);
    assert_eq!(normalize_ttl(-2), None);
    assert_eq!(normalize_ttl(0), Some(0));
    assert_eq!(normalize_ttl(90), Some(90));
    let e = key_entry(s("k"), s("string"), 3, -1);
    assert_eq!(e.ttl, None);
    let e = key_entry(s("k"), s("string"), 3, 90);
    assert_eq!(e.ttl, Some(90));
}

#[test]
fn string_read_is_one_key_value_row() {
    let r = build_value_result(s("k"), KvFetch::Str(s("v")));
    assert_eq!(r.columns, vec![s("key"), s("value")]);
    assert_eq!(r.types, vec![s("String"), s("String")]);
    assert_eq!(r.rows, vec![vec![Value::Str(s("k")), Value::Str(s("v"))]]);
}

#[test]
fn list_read_uses_one_based_indexes() {
    let r = build_value_result(s("l"), KvFetch::List(vec![s("a"), s("b")]));
    assert_eq!(r.columns, vec![s("index"), s("value")]);
    assert_eq!(r.types, vec![s("Int"), s("String")]);
    assert_eq!(
        r.rows,
        vec![
            vec![Value::Int(1), Value::Str(s("a"))],
            vec![Value::Int(2), Value::Str(s("b"))],
        ]
    );
}

#[test]
fn hash_read_is_one_row_per_pair() {
    let r = build_value_result(s("h"), KvFetch::Hash(vec![(s("f1"), s("v1")), (s("f2"), s("v2"))]));
    assert_eq!(r.columns, vec![s("field"), s("value")]);
    assert_eq!(
        r.rows,
        vec![
            vec![Value::Str(s("f1")), Value::Str(s("v1"))],
            vec![Value::Str(s("f2")), Value::Str(s("v2"))],
        ]
    );
}

#[test]
fn set_read_is_one_row_per_member() {
    let r = build_value_result(s("st"), KvFetch::SetMembers(vec![s("m1"), s("m2")]));
    assert_eq!(r.columns, vec![s("member")]);
    assert_eq!(r.types, vec![s("String")]);
    assert_eq!(r.rows.len(), 2);
    for row in &r.rows {
        assert_eq!(row.len(), 1);
    }
}

#[test]
fn sorted_set_read_keeps_rank_order_and_scores() {
    let bits = (1.5f64).to_bits();
    let r = build_value_result(s("z"), KvFetch::ZSet(vec![(s("m1"), bits)]));
    assert_eq!(r.columns, vec![s("member"), s("score")]);
    assert_eq!(r.types, vec![s("String"), s("Double")]);
    assert_eq!(r.rows, vec![vec![Value::Str(s("m1")), Value::Double(bits)]]);
}

#[test]
fn unrecognized_type_reads_surface_the_tag() {
    let r = build_value_result(s("k"), KvFetch::Unknown(s("stream")));
    assert_eq!(r.columns, vec![s("error")]);
    assert_eq!(r.rows, vec![vec![Value::Str(s("Unsupported type: stream"))]]);
}

#[test]
fn generic_command_success_is_one_ok_row() {
    let r = ok_result();
    assert_eq!(r.columns, vec![s("OK")]);
    assert_eq!(r.types, vec![s("String")]);
    assert_eq!(r.rows, vec![vec![Value::Str(s("OK"))]]);
}

#[test]
fn connection_url_carries_credentials_host_port_and_namespace() {
    assert_eq!(kv_connection_url(&cfg()), s("redis://user:pw@localhost:6379/0"));
    let mut anon = cfg();
    anon.username = s("");
    anon.password = None;
    assert_eq!(kv_connection_url(&anon), s("redis://:@localhost:6379/0"));
}

#[test]
fn liveness_probe_accepts_only_the_pong_reply() {
    assert!(probe_reply_ok("PONG"));
    assert!(!probe_reply_ok("ERR unknown command"));
}

#[test]
fn key_namespace_schema_entry_has_the_fixed_descriptors() {
    let t = keys_schema_entry(s("0"), 4);
    assert_eq!(t.name, s("keys"));
    assert_eq!(t.schema, Some(s("0")));
    assert_eq!(t.kind, s("redis_keys"));
    assert_eq!(t.columns.len(), 3);
    assert_eq!(t.columns[0].name, s("name"));
    assert!(t.columns[0].is_primary_key);
    assert_eq!(t.columns[1].name, s("type"));
    assert_eq!(t.columns[2].name, s("size"));
    assert_eq!(t.columns[2].column_type, s("Int"));
    assert_eq!(t.row_count, Some(4));
    assert_eq!(t.size, None);
}
