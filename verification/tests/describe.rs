use scylla_rust_mcp::cql::TypedValue;
use scylla_rust_mcp::db::{describe_from_rows, find_last, key_list, ColumnMeta, DescribeTable};

fn names(list: &[&str]) -> Vec<String> {
    list.iter().map(|s| s.to_string()).collect()
}

fn text(s: &str) -> Option<TypedValue> {
    Some(TypedValue::Text(s.to_string()))
}

fn row(name: &str, kind: &str, position: i32, ty: &str, order: Option<&str>) -> Vec<Option<TypedValue>> {
    vec![
        text(name),
        text(kind),
        Some(TypedValue::Int(position)),
        text(ty),
        order.map(|o| TypedValue::Text(o.to_string())),
    ]
}

fn column(name: &str, kind: &str, position: i32, ty: &str, order: Option<&str>) -> ColumnMeta {
    ColumnMeta {
        column_name: name.to_string(),
        kind: kind.to_string(),
        position,
        data_type: ty.to_string(),
        clustering_order: order.map(|o| o.to_string()),
    }
}

fn header() -> Vec<String> {
    names(&["column_name", "kind", "position", "type", "clustering_order"])
}

#[test]
fn keys_follow_their_positions() {
    let rows = vec![
        row("seq", "clustering", 1, "int", Some("desc")),
        row("payload", "regular", -1, "text", Some("none")),
        row("day", "partition_key", 1, "date", Some("none")),
        row("ts", "clustering", 0, "timestamp", Some("asc")),
        row("tenant", "partition_key", 0, "text", Some("none")),
        row("region", "static", -1, "text", None),
    ];
    let schema = describe_from_rows("ks", "events", &header(), &rows);
    assert_eq!(
        schema,
        DescribeTable {
            keyspace: "ks".to_string(),
            table: "events".to_string(),
            partition_keys: names(&["tenant", "day"]),
            clustering_keys: names(&["ts", "seq"]),
            columns: vec![
                column("seq", "clustering", 1, "int", Some("desc")),
                column("payload", "regular", -1, "text", Some("none")),
                column("day", "partition_key", 1, "date", Some("none")),
                column("ts", "clustering", 0, "timestamp", Some("asc")),
                column("tenant", "partition_key", 0, "text", Some("none")),
                column("region", "static", -1, "text", None),
            ],
        }
    );
}

#[test]
fn columns_of_equal_position_keep_their_order() {
    let columns = vec![
        column("b", "clustering", 1, "int", None),
        column("a", "clustering", 1, "int", None),
        column("z", "clustering", 0, "int", None),
        column("c", "clustering", 1, "int", None),
        column("p", "partition_key", 5, "int", None),
    ];
    assert_eq!(key_list(&columns, "clustering"), names(&["z", "b", "a", "c"]));
    assert_eq!(key_list(&columns, "partition_key"), names(&["p"]));
    assert_eq!(key_list(&columns, "regular"), names(&[]));
    let descending: Vec<ColumnMeta> =
        (0..6).rev().map(|i| column(&format!("k{i}"), "partition_key", i, "int", None)).collect();
    assert_eq!(
        key_list(&descending, "partition_key"),
        names(&["k0", "k1", "k2", "k3", "k4", "k5"])
    );
}

#[test]
fn no_rows_describe_an_empty_table() {
    let schema = describe_from_rows("ks", "t", &header(), &vec![]);
    assert_eq!(
        schema,
        DescribeTable {
            keyspace: "ks".to_string(),
            table: "t".to_string(),
            partition_keys: vec![],
            clustering_keys: vec![],
            columns: vec![],
        }
    );
}

#[test]
fn cells_are_found_by_the_names_of_the_result() {
    let shuffled = names(&["position", "clustering_order", "type", "column_name", "kind"]);
    let rows = vec![vec![
        Some(TypedValue::Int(0)),
        text("asc"),
        text("int"),
        Some(TypedValue::Ascii("id".to_string())),
        text("partition_key"),
    ]];
    let schema = describe_from_rows("ks", "t", &shuffled, &rows);
    assert_eq!(schema.columns, vec![column("id", "partition_key", 0, "int", Some("asc"))]);
    assert_eq!(schema.partition_keys, names(&["id"]));
}

#[test]
fn missing_or_mistyped_cells_take_defaults() {
    let rows = vec![
        vec![Some(TypedValue::Int(3)), None, Some(TypedValue::BigInt(4)), text("int"), Some(TypedValue::Boolean(true))],
        vec![text("short")],
        vec![],
    ];
    let schema = describe_from_rows("ks", "t", &header(), &rows);
    assert_eq!(
        schema.columns,
        vec![
            column("", "", 0, "int", None),
            column("short", "", 0, "", None),
            column("", "", 0, "", None),
        ]
    );
    let partial = names(&["column_name"]);
    let schema = describe_from_rows("ks", "t", &partial, &vec![vec![text("x"), text("clustering")]]);
    assert_eq!(schema.columns, vec![column("x", "", 0, "", None)]);
    assert_eq!(schema.clustering_keys, names(&[]));
}

#[test]
fn the_last_column_of_a_name_is_used() {
    let twice = names(&["kind", "column_name", "kind"]);
    assert_eq!(find_last(&twice, "kind"), Some(2));
    assert_eq!(find_last(&twice, "column_name"), Some(1));
    assert_eq!(find_last(&twice, "position"), None);
    assert_eq!(find_last(&names(&[]), "kind"), None);
}
