use scylla_rust_mcp::cql::TypedValue;
use scylla_rust_mcp::json::{JsonValue, Member};
use scylla_rust_mcp::query::Statement;
use scylla_rust_mcp::search::{
    hit_record, kind_name, matches_pattern, search_columns, search_named, search_query_text,
    search_statement, search_tables, SchemaKind, SearchHit,
};

fn pair(a: &str, b: &str) -> (String, String) {
    (a.to_string(), b.to_string())
}

fn hit(kind: SchemaKind, keyspace: &str, table: Option<&str>, name: &str) -> SearchHit {
    SearchHit {
        kind,
        keyspace: keyspace.to_string(),
        table: table.map(|t| t.to_string()),
        name: name.to_string(),
    }
}

#[test]
fn matching_ignores_case() {
    assert!(matches_pattern("user", "Users"));
    assert!(matches_pattern("USER", "app_users"));
    assert!(matches_pattern("", "anything"));
    assert!(matches_pattern("\u{c9}T\u{c9}", "\u{e9}t\u{e9}_2024"));
    assert!(!matches_pattern("users", "user"));
    assert!(!matches_pattern("x", ""));
}

#[test]
fn tables_match_by_their_own_name() {
    let rows = vec![
        pair("shop", "orders"),
        pair("orders_ks", "items"),
        pair("shop", "users"),
        pair("orders_ks", "Reorders"),
    ];
    assert_eq!(
        search_tables("ORDER", &rows),
        vec![
            hit(SchemaKind::Table, "shop", None, "orders"),
            hit(SchemaKind::Table, "orders_ks", None, "Reorders"),
        ]
    );
    assert_eq!(search_tables("shop", &rows), vec![]);
    assert_eq!(search_tables("zzz", &rows), vec![]);
}

#[test]
fn columns_match_by_their_own_name() {
    let rows = vec![
        ("shop".to_string(), "user_orders".to_string(), "id".to_string()),
        ("shop".to_string(), "orders".to_string(), "User_Id".to_string()),
    ];
    assert_eq!(
        search_columns("user", &rows),
        vec![hit(SchemaKind::Column, "shop", Some("orders"), "User_Id")]
    );
}

#[test]
fn other_kinds_match_by_their_own_name() {
    let rows = vec![pair("avg_ks", "sum"), pair("shop", "AvgPrice")];
    for kind in [SchemaKind::Udt, SchemaKind::View, SchemaKind::Function, SchemaKind::Aggregate] {
        assert_eq!(search_named(kind, "avg", &rows), vec![hit(kind, "shop", None, "AvgPrice")]);
    }
}

#[test]
fn hits_are_written_as_tagged_records() {
    let text = |s: &str| JsonValue::Text(s.to_string());
    assert_eq!(
        hit_record(&hit(SchemaKind::Column, "shop", Some("orders"), "id")),
        vec![
            Member { name: "kind".into(), value: text("column") },
            Member { name: "keyspace".into(), value: text("shop") },
            Member { name: "table".into(), value: text("orders") },
            Member { name: "name".into(), value: text("id") },
        ]
    );
    assert_eq!(
        hit_record(&hit(SchemaKind::View, "shop", None, "by_day")),
        vec![
            Member { name: "kind".into(), value: text("view") },
            Member { name: "keyspace".into(), value: text("shop") },
            Member { name: "name".into(), value: text("by_day") },
        ]
    );
    assert_eq!(kind_name(SchemaKind::Table), "table");
    assert_eq!(kind_name(SchemaKind::Udt), "udt");
    assert_eq!(kind_name(SchemaKind::Function), "function");
    assert_eq!(kind_name(SchemaKind::Aggregate), "aggregate");
}

#[test]
fn search_reads_are_scoped_by_keyspace() {
    assert_eq!(
        search_statement(SchemaKind::Table, None),
        Statement {
            text: "SELECT keyspace_name, table_name FROM system_schema.tables".to_string(),
            values: vec![],
        }
    );
    assert_eq!(
        search_statement(SchemaKind::Column, Some("shop")),
        Statement {
            text: "SELECT keyspace_name, table_name, column_name FROM system_schema.columns WHERE keyspace_name = ?".to_string(),
            values: vec![TypedValue::Text("shop".to_string())],
        }
    );
    assert_eq!(
        search_query_text(SchemaKind::Udt, false),
        "SELECT keyspace_name, type_name FROM system_schema.types"
    );
    assert_eq!(
        search_query_text(SchemaKind::View, true),
        "SELECT keyspace_name, view_name FROM system_schema.views WHERE keyspace_name = ?"
    );
    assert_eq!(
        search_query_text(SchemaKind::Function, false),
        "SELECT keyspace_name, function_name FROM system_schema.functions"
    );
    assert_eq!(
        search_query_text(SchemaKind::Aggregate, true),
        "SELECT keyspace_name, aggregate_name FROM system_schema.aggregates WHERE keyspace_name = ?"
    );
}
