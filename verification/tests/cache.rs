use scylla_rust_mcp::cache::{after_fetch, begin_lookup, RetryPolicy, SchemaCache, SchemaStep};
use scylla_rust_mcp::db::{ColumnMeta, DescribeTable};

fn table(keyspace: &str, name: &str, key: &str) -> DescribeTable {
    DescribeTable {
        keyspace: keyspace.to_string(),
        table: name.to_string(),
        partition_keys: vec![key.to_string()],
        clustering_keys: vec![],
        columns: vec![ColumnMeta {
            column_name: key.to_string(),
            kind: "partition_key".to_string(),
            position: 0,
            data_type: "int".to_string(),
            clustering_order: Some("none".to_string()),
        }],
    }
}

#[test]
fn an_empty_cache_holds_nothing() {
    let cache = SchemaCache::new();
    assert_eq!(cache.get("ks", "t"), None);
}

#[test]
fn what_is_cached_is_found_again() {
    let mut cache = SchemaCache::new();
    cache.insert("ks", "t", table("ks", "t", "id"));
    cache.insert("ks", "u", table("ks", "u", "key"));
    assert_eq!(cache.get("ks", "t"), Some(table("ks", "t", "id")));
    assert_eq!(cache.get("ks", "u"), Some(table("ks", "u", "key")));
    assert_eq!(cache.get("other", "t"), None);
    assert_eq!(cache.get("ks", "v"), None);
    assert_eq!(cache.get("t", "ks"), None);
}

#[test]
fn the_last_writer_wins() {
    let mut cache = SchemaCache::new();
    cache.insert("ks", "t", table("ks", "t", "old"));
    cache.insert("ks", "u", table("ks", "u", "key"));
    cache.insert("ks", "t", table("ks", "t", "new"));
    assert_eq!(cache.get("ks", "t"), Some(table("ks", "t", "new")));
    assert_eq!(cache.get("ks", "u"), Some(table("ks", "u", "key")));
}

#[test]
fn the_standard_policy_pauses_0_50_150() {
    let policy = RetryPolicy::standard();
    assert_eq!(policy.delays_ms, vec![0, 50, 150]);
    assert_eq!(policy.max_attempts(), 3);
}

#[test]
fn a_miss_is_fetched_at_once() {
    let cache = SchemaCache::new();
    let policy = RetryPolicy::standard();
    assert_eq!(
        begin_lookup(&cache, &policy, "ks", "t"),
        SchemaStep::Fetch { attempt: 0, delay_ms: 0 }
    );
}

#[test]
fn a_second_lookup_is_served_from_the_cache() {
    let mut cache = SchemaCache::new();
    let policy = RetryPolicy::standard();
    let first = begin_lookup(&cache, &policy, "ks", "t");
    assert_eq!(first, SchemaStep::Fetch { attempt: 0, delay_ms: 0 });
    let step = after_fetch(&mut cache, &policy, "ks", "t", 0, Ok(table("ks", "t", "id")));
    assert_eq!(step, SchemaStep::Deliver(table("ks", "t", "id")));
    let second = begin_lookup(&cache, &policy, "ks", "t");
    assert_eq!(second, SchemaStep::Deliver(table("ks", "t", "id")));
    let third = begin_lookup(&cache, &policy, "ks", "t");
    assert_eq!(third, second);
}

#[test]
fn failures_are_retried_on_the_fixed_schedule() {
    let mut cache = SchemaCache::new();
    let policy = RetryPolicy::standard();
    assert_eq!(
        after_fetch(&mut cache, &policy, "ks", "t", 0, Err("first".to_string())),
        SchemaStep::Fetch { attempt: 1, delay_ms: 50 }
    );
    assert_eq!(
        after_fetch(&mut cache, &policy, "ks", "t", 1, Err("second".to_string())),
        SchemaStep::Fetch { attempt: 2, delay_ms: 150 }
    );
    assert_eq!(
        after_fetch(&mut cache, &policy, "ks", "t", 2, Err("third".to_string())),
        SchemaStep::Fail("third".to_string())
    );
    assert_eq!(cache.get("ks", "t"), None);
    assert_eq!(
        after_fetch(&mut cache, &policy, "ks", "t", usize::MAX, Err("late".to_string())),
        SchemaStep::Fail("late".to_string())
    );
}

#[test]
fn a_retry_that_succeeds_is_cached() {
    let mut cache = SchemaCache::new();
    let policy = RetryPolicy::standard();
    let _ = after_fetch(&mut cache, &policy, "ks", "t", 0, Err("first".to_string()));
    assert_eq!(
        after_fetch(&mut cache, &policy, "ks", "t", 1, Ok(table("ks", "t", "id"))),
        SchemaStep::Deliver(table("ks", "t", "id"))
    );
    assert_eq!(cache.get("ks", "t"), Some(table("ks", "t", "id")));
}

#[test]
fn a_policy_without_attempts_fails_at_once() {
    let cache = SchemaCache::new();
    let policy = RetryPolicy { delays_ms: vec![] };
    assert_eq!(
        begin_lookup(&cache, &policy, "ks", "t"),
        SchemaStep::Fail("unknown schema error".to_string())
    );
    let single = RetryPolicy { delays_ms: vec![10] };
    assert_eq!(
        begin_lookup(&cache, &single, "ks", "t"),
        SchemaStep::Fetch { attempt: 0, delay_ms: 10 }
    );
    let mut cache = SchemaCache::new();
    assert_eq!(
        after_fetch(&mut cache, &single, "ks", "t", 0, Err("only".to_string())),
        SchemaStep::Fail("only".to_string())
    );
}

#[test]
fn copies_are_equal_to_what_they_copy() {
    let source = table("ks", "t", "id");
    assert_eq!(source.duplicate(), source);
    assert_eq!(source.columns[0].duplicate(), source.columns[0]);
}
