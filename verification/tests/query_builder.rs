use scylla_rust_mcp::cql::TypedValue;
use scylla_rust_mcp::db::{ColumnMeta, DescribeTable};
use scylla_rust_mcp::error::QueryError;
use scylla_rust_mcp::json::{JsonValue, Member};
use scylla_rust_mcp::query::{
    build_filters_clause_prepared, build_order_by_clause, check_projection, check_target,
    contains_name, direction_keyword, partition_statement, same_keys, sample_statement,
    select_statement, Statement,
};

fn member(name: &str, value: JsonValue) -> Member {
    Member { name: name.to_string(), value }
}

fn text(s: &str) -> JsonValue {
    JsonValue::Text(s.to_string())
}

fn names(list: &[&str]) -> Vec<String> {
    list.iter().map(|s| s.to_string()).collect()
}

fn terms(list: &[(&str, &str)]) -> Vec<(String, String)> {
    list.iter().map(|(c, d)| (c.to_string(), d.to_string())).collect()
}

fn column(name: &str, kind: &str, position: i32) -> ColumnMeta {
    ColumnMeta {
        column_name: name.to_string(),
        kind: kind.to_string(),
        position,
        data_type: "text".to_string(),
        clustering_order: None,
    }
}

fn schema(partition_keys: &[&str], clustering_keys: &[&str]) -> DescribeTable {
    let mut columns = Vec::new();
    for (i, k) in partition_keys.iter().enumerate() {
        columns.push(column(k, "partition_key", i as i32));
    }
    for (i, k) in clustering_keys.iter().enumerate() {
        columns.push(column(k, "clustering", i as i32));
    }
    columns.push(column("payload", "regular", -1));
    DescribeTable {
        keyspace: "ks".to_string(),
        table: "events".to_string(),
        partition_keys: names(partition_keys),
        clustering_keys: names(clustering_keys),
        columns,
    }
}

#[test]
fn no_filters_give_no_clause() {
    assert_eq!(build_filters_clause_prepared(None), Ok((String::new(), vec![])));
    assert_eq!(build_filters_clause_prepared(Some(&vec![])), Ok((String::new(), vec![])));
}

#[test]
fn filters_become_predicates_in_their_order() {
    let filters = vec![
        member("id", JsonValue::Int(7)),
        member("name", text("x")),
        member("ok", JsonValue::Bool(true)),
        member("score", JsonValue::Float(0.5f64.to_bits())),
    ];
    assert_eq!(
        build_filters_clause_prepared(Some(&filters)),
        Ok((
            " WHERE id = ? AND name = ? AND ok = ? AND score = ?".to_string(),
            vec![
                TypedValue::BigInt(7),
                TypedValue::Text("x".to_string()),
                TypedValue::Boolean(true),
                TypedValue::Double(0.5f64.to_bits()),
            ]
        ))
    );
    let one = vec![member("b", JsonValue::Int(1))];
    assert_eq!(
        build_filters_clause_prepared(Some(&one)),
        Ok((" WHERE b = ?".to_string(), vec![TypedValue::BigInt(1)]))
    );
}

#[test]
fn a_bad_filter_column_is_refused() {
    let filters = vec![member("id", JsonValue::Int(7)), member("x = 1 OR y", JsonValue::Int(1))];
    assert_eq!(
        build_filters_clause_prepared(Some(&filters)),
        Err(QueryError::InvalidFilterColumn)
    );
    assert_eq!(QueryError::InvalidFilterColumn.message(), "invalid column name in filters");
}

#[test]
fn a_filter_value_that_is_no_scalar_is_refused() {
    for bad in [JsonValue::Null, JsonValue::Array(vec![]), JsonValue::Object(vec![])] {
        let filters = vec![member("id", bad)];
        assert_eq!(
            build_filters_clause_prepared(Some(&filters)),
            Err(QueryError::UnsupportedFilterValue)
        );
    }
    assert_eq!(QueryError::UnsupportedFilterValue.message(), "unsupported filter value type");
}

#[test]
fn the_first_bad_filter_words_the_refusal() {
    let value_first = vec![member("a", JsonValue::Null), member("b c", JsonValue::Int(1))];
    assert_eq!(
        build_filters_clause_prepared(Some(&value_first)),
        Err(QueryError::UnsupportedFilterValue)
    );
    let name_first = vec![member("b c", JsonValue::Null), member("a", JsonValue::Null)];
    assert_eq!(
        build_filters_clause_prepared(Some(&name_first)),
        Err(QueryError::InvalidFilterColumn)
    );
}

#[test]
fn directions() {
    assert_eq!(direction_keyword("desc"), "DESC");
    assert_eq!(direction_keyword("DESC"), "DESC");
    assert_eq!(direction_keyword("Desc"), "DESC");
    assert_eq!(direction_keyword("asc"), "ASC");
    assert_eq!(direction_keyword("ASC"), "ASC");
    assert_eq!(direction_keyword("descending"), "ASC");
    assert_eq!(direction_keyword("sideways"), "ASC");
    assert_eq!(direction_keyword(""), "ASC");
}

#[test]
fn ordering_clauses() {
    assert_eq!(build_order_by_clause(None), Ok(String::new()));
    assert_eq!(build_order_by_clause(Some(&vec![])), Ok(String::new()));
    assert_eq!(
        build_order_by_clause(Some(&terms(&[("ts", "desc")]))),
        Ok(" ORDER BY ts DESC".to_string())
    );
    assert_eq!(
        build_order_by_clause(Some(&terms(&[("ts", "DESC"), ("seq", "up"), ("n", "asc")]))),
        Ok(" ORDER BY ts DESC, seq ASC, n ASC".to_string())
    );
    assert_eq!(
        build_order_by_clause(Some(&terms(&[("ts", "asc"), ("ts; --", "asc")]))),
        Err(QueryError::InvalidOrderColumn)
    );
    assert_eq!(QueryError::InvalidOrderColumn.message(), "invalid column name in order_by");
}

#[test]
fn select_statements() {
    let filters = vec![member("id", JsonValue::Int(1))];
    let order = terms(&[("ts", "desc")]);
    assert_eq!(
        select_statement(
            "ks",
            "events",
            &names(&["id", "ts", "payload"]),
            Some(25),
            Some(&filters),
            Some(&order)
        ),
        Ok(Statement {
            text: "SELECT id, ts, payload FROM ks.events WHERE id = ? ORDER BY ts DESC LIMIT 25"
                .to_string(),
            values: vec![TypedValue::BigInt(1)],
        })
    );
    assert_eq!(
        select_statement("ks", "events", &names(&["id"]), Some(1), None, None),
        Ok(Statement { text: "SELECT id FROM ks.events LIMIT 1".to_string(), values: vec![] })
    );
    assert_eq!(
        select_statement("ks", "events", &names(&["id"]), None, None, None),
        Ok(Statement { text: "SELECT id FROM ks.events".to_string(), values: vec![] })
    );
}

#[test]
fn select_refusals_come_in_order() {
    let bad_filters = vec![member("a b", JsonValue::Int(1))];
    let bad_order = terms(&[("x y", "asc")]);
    assert_eq!(
        select_statement("k s", "t t", &vec![], Some(1), Some(&bad_filters), Some(&bad_order)),
        Err(QueryError::InvalidKeyspace)
    );
    assert_eq!(
        select_statement("ks", "t t", &vec![], Some(1), Some(&bad_filters), Some(&bad_order)),
        Err(QueryError::InvalidTable)
    );
    assert_eq!(
        select_statement("ks", "t", &vec![], Some(1), Some(&bad_filters), Some(&bad_order)),
        Err(QueryError::EmptyColumns)
    );
    assert_eq!(
        select_statement(
            "ks",
            "t",
            &names(&["ok", "no good"]),
            Some(1),
            Some(&bad_filters),
            Some(&bad_order)
        ),
        Err(QueryError::InvalidColumn)
    );
    assert_eq!(
        select_statement("ks", "t", &names(&["ok"]), Some(1), Some(&bad_filters), Some(&bad_order)),
        Err(QueryError::InvalidFilterColumn)
    );
    assert_eq!(
        select_statement("ks", "t", &names(&["ok"]), Some(1), None, Some(&bad_order)),
        Err(QueryError::InvalidOrderColumn)
    );
    assert_eq!(QueryError::InvalidKeyspace.message(), "invalid keyspace name");
    assert_eq!(QueryError::InvalidTable.message(), "invalid table name");
    assert_eq!(QueryError::EmptyColumns.message(), "columns must not be empty");
    assert_eq!(QueryError::InvalidColumn.message(), "invalid column name");
}

#[test]
fn target_and_projection_checks() {
    assert_eq!(check_target("ks", "t"), Ok(()));
    assert_eq!(check_target("", "t"), Err(QueryError::InvalidKeyspace));
    assert_eq!(check_target("ks", "1t"), Err(QueryError::InvalidTable));
    assert_eq!(check_projection(&names(&["a", "b"])), Ok(()));
    assert_eq!(check_projection(&names(&[])), Err(QueryError::EmptyColumns));
    assert_eq!(check_projection(&names(&["a", "*"])), Err(QueryError::InvalidColumn));
}

#[test]
fn sample_statements() {
    assert_eq!(
        sample_statement("system_schema", "tables", 5, None),
        Ok(Statement {
            text: "SELECT * FROM system_schema.tables LIMIT 5".to_string(),
            values: vec![]
        })
    );
    let filters = vec![member("keyspace_name", text("ks")), member("flag", JsonValue::Bool(false))];
    assert_eq!(
        sample_statement("system_schema", "tables", 500, Some(&filters)),
        Ok(Statement {
            text: "SELECT * FROM system_schema.tables WHERE keyspace_name = ? AND flag = ? LIMIT 500"
                .to_string(),
            values: vec![TypedValue::Text("ks".to_string()), TypedValue::Boolean(false)]
        })
    );
    assert_eq!(
        sample_statement("ks; DROP", "tables", 5, None),
        Err(QueryError::InvalidKeyspace)
    );
    assert_eq!(sample_statement("ks", "t.u", 5, None), Err(QueryError::InvalidTable));
}

#[test]
fn partition_statements_follow_the_key_order_of_the_table() {
    let table = schema(&["tenant", "day"], &["ts"]);
    let partition = vec![member("day", JsonValue::Int(20240101)), member("tenant", text("acme"))];
    assert_eq!(
        partition_statement(&table, "ks", "events", &partition, 100),
        Ok(Statement {
            text: "SELECT * FROM ks.events WHERE tenant = ? AND day = ? LIMIT 100".to_string(),
            values: vec![TypedValue::Text("acme".to_string()), TypedValue::BigInt(20240101)],
        })
    );
}

#[test]
fn partition_keys_must_match_exactly() {
    let table = schema(&["tenant", "day"], &["ts"]);
    let expected = QueryError::PartitionKeysMismatch { expected: names(&["tenant", "day"]) };
    let subset = vec![member("tenant", text("acme"))];
    assert_eq!(partition_statement(&table, "ks", "events", &subset, 10), Err(expected.clone()));
    let superset = vec![
        member("tenant", text("acme")),
        member("day", JsonValue::Int(1)),
        member("ts", JsonValue::Int(2)),
    ];
    assert_eq!(partition_statement(&table, "ks", "events", &superset, 10), Err(expected.clone()));
    let other = vec![member("tenant", text("acme")), member("payload", JsonValue::Int(1))];
    assert_eq!(partition_statement(&table, "ks", "events", &other, 10), Err(expected.clone()));
    let empty = vec![];
    assert_eq!(partition_statement(&table, "ks", "events", &empty, 10), Err(expected.clone()));
    assert_eq!(
        partition_statement(&table, "k s", "events", &subset, 10),
        Err(expected.clone())
    );
    assert_eq!(expected.message(), "partition keys mismatch: expected [\"tenant\", \"day\"]");
}

#[test]
fn partition_values_must_be_scalars_and_names_valid() {
    let table = schema(&["id"], &[]);
    let null = vec![member("id", JsonValue::Null)];
    assert_eq!(
        partition_statement(&table, "ks", "events", &null, 10),
        Err(QueryError::UnsupportedPartitionValue)
    );
    assert_eq!(
        QueryError::UnsupportedPartitionValue.message(),
        "unsupported partition value type"
    );
    let good = vec![member("id", JsonValue::Int(1))];
    assert_eq!(
        partition_statement(&table, "ks", "bad table", &good, 10),
        Err(QueryError::InvalidTable)
    );
    let odd = schema(&["my id"], &[]);
    let given = vec![member("my id", JsonValue::Int(1))];
    assert_eq!(
        partition_statement(&odd, "ks", "events", &given, 10),
        Err(QueryError::InvalidPartitionColumn)
    );
    assert_eq!(
        QueryError::InvalidPartitionColumn.message(),
        "invalid column name in partition"
    );
}

#[test]
fn key_sets_are_compared_as_sets() {
    let expected = names(&["a", "b"]);
    assert!(same_keys(&expected, &vec![member("b", JsonValue::Null), member("a", JsonValue::Null)]));
    assert!(same_keys(
        &expected,
        &vec![
            member("a", JsonValue::Null),
            member("b", JsonValue::Null),
            member("a", JsonValue::Null)
        ]
    ));
    assert!(!same_keys(&expected, &vec![member("a", JsonValue::Null)]));
    assert!(!same_keys(&names(&[]), &vec![member("a", JsonValue::Null)]));
    assert!(same_keys(&names(&[]), &vec![]));
    assert!(contains_name(&expected, "a"));
    assert!(!contains_name(&expected, "c"));
}
