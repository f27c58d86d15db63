use scylla_rust_mcp::db::{ColumnMeta, DescribeTable};
use scylla_rust_mcp::json::{JsonValue, Member};
use scylla_rust_mcp::tools::{
    check_call, column_name_list, find_missing, ordering_of, parse_tool_call, texts_of,
    CallAction, ToolCall,
};

fn member(name: &str, value: JsonValue) -> Member {
    Member { name: name.to_string(), value }
}

fn text(s: &str) -> JsonValue {
    JsonValue::Text(s.to_string())
}

fn texts(list: &[&str]) -> JsonValue {
    JsonValue::Array(list.iter().map(|s| text(s)).collect())
}

fn names(list: &[&str]) -> Vec<String> {
    list.iter().map(|s| s.to_string()).collect()
}

fn order_item(column: &str, direction: &str) -> JsonValue {
    JsonValue::Object(vec![member("column", text(column)), member("direction", text(direction))])
}

fn column(name: &str, kind: &str, position: i32) -> ColumnMeta {
    ColumnMeta {
        column_name: name.to_string(),
        kind: kind.to_string(),
        position,
        data_type: "text".to_string(),
        clustering_order: None,
    }
}

/// partition_keys = ["id"], clustering_keys = ["ts"], one regular column.
fn events() -> DescribeTable {
    DescribeTable {
        keyspace: "ks".to_string(),
        table: "events".to_string(),
        partition_keys: names(&["id"]),
        clustering_keys: names(&["ts"]),
        columns: vec![
            column("id", "partition_key", 0),
            column("ts", "clustering", 0),
            column("payload", "regular", -1),
        ],
    }
}

fn select_args(order_by: Option<JsonValue>) -> Vec<Member> {
    let mut args = vec![
        member("keyspace", text("ks")),
        member("table", text("events")),
        member("columns", texts(&["id", "payload"])),
        member("limit", JsonValue::Int(10)),
    ];
    if let Some(o) = order_by {
        args.push(member("order_by", o));
    }
    args
}

#[test]
fn calls_without_arguments_are_read() {
    assert_eq!(parse_tool_call("list_keyspaces", None), Ok(ToolCall::ListKeyspaces));
    assert_eq!(parse_tool_call("cluster_topology", None), Ok(ToolCall::ClusterTopology));
    let extra = vec![member("x", JsonValue::Null)];
    assert_eq!(parse_tool_call("list_keyspaces", Some(&extra)), Ok(ToolCall::ListKeyspaces));
}

#[test]
fn keyspace_calls_are_read() {
    let args = vec![member("keyspace", text("ks1"))];
    assert_eq!(
        parse_tool_call("list_tables", Some(&args)),
        Ok(ToolCall::ListTables { keyspace: "ks1".into() })
    );
    assert_eq!(
        parse_tool_call("keyspace_replication", Some(&args)),
        Ok(ToolCall::KeyspaceReplication { keyspace: "ks1".into() })
    );
    assert_eq!(
        parse_tool_call("list_views", Some(&args)),
        Ok(ToolCall::ListViews { keyspace: "ks1".into() })
    );
    assert_eq!(
        parse_tool_call("list_udts", Some(&args)),
        Ok(ToolCall::ListUdts { keyspace: "ks1".into() })
    );
    assert_eq!(
        parse_tool_call("list_functions", Some(&args)),
        Ok(ToolCall::ListFunctions { keyspace: "ks1".into() })
    );
    assert_eq!(
        parse_tool_call("list_aggregates", Some(&args)),
        Ok(ToolCall::ListAggregates { keyspace: "ks1".into() })
    );
    for tool in [
        "list_tables",
        "keyspace_replication",
        "list_views",
        "list_udts",
        "list_functions",
        "list_aggregates",
    ] {
        assert_eq!(
            parse_tool_call(tool, None),
            Err("missing required argument 'keyspace'".to_string())
        );
    }
}

#[test]
fn table_calls_are_read() {
    let args = vec![member("table", text("t1")), member("keyspace", text("ks1"))];
    assert_eq!(
        parse_tool_call("describe_table", Some(&args)),
        Ok(ToolCall::DescribeTable { keyspace: "ks1".into(), table: "t1".into() })
    );
    assert_eq!(
        parse_tool_call("list_indexes", Some(&args)),
        Ok(ToolCall::ListIndexes { keyspace: "ks1".into(), table: "t1".into() })
    );
    assert_eq!(
        parse_tool_call("size_estimates", Some(&args)),
        Ok(ToolCall::SizeEstimates { keyspace: "ks1".into(), table: "t1".into() })
    );
    let only_keyspace = vec![member("keyspace", text("ks1"))];
    for tool in ["describe_table", "list_indexes", "size_estimates"] {
        assert_eq!(
            parse_tool_call(tool, Some(&only_keyspace)),
            Err("missing required arguments 'keyspace' and/or 'table'".to_string())
        );
    }
}

#[test]
fn sample_rows_limit_is_clamped() {
    let args = vec![
        member("keyspace", text("ks")),
        member("table", text("events")),
        member("limit", JsonValue::Int(1000)),
    ];
    assert_eq!(
        parse_tool_call("sample_rows", Some(&args)),
        Ok(ToolCall::SampleRows {
            keyspace: "ks".into(),
            table: "events".into(),
            limit: 500,
            filters: None
        })
    );
    let zero = vec![
        member("keyspace", text("ks")),
        member("table", text("events")),
        member("limit", JsonValue::Int(0)),
    ];
    assert_eq!(
        parse_tool_call("sample_rows", Some(&zero)),
        Ok(ToolCall::SampleRows {
            keyspace: "ks".into(),
            table: "events".into(),
            limit: 1,
            filters: None
        })
    );
    let huge = vec![
        member("keyspace", text("ks")),
        member("table", text("events")),
        member("limit", JsonValue::Int(1 << 32)),
    ];
    assert_eq!(
        parse_tool_call("sample_rows", Some(&huge)),
        Ok(ToolCall::SampleRows {
            keyspace: "ks".into(),
            table: "events".into(),
            limit: 500,
            filters: None
        })
    );
    let beyond = vec![
        member("keyspace", text("ks")),
        member("table", text("events")),
        member(
            "limit",
            JsonValue::Large { value: 1 << 63, nearest: ((1u64 << 63) as f64).to_bits() },
        ),
    ];
    assert_eq!(
        parse_tool_call("sample_rows", Some(&beyond)),
        Ok(ToolCall::SampleRows {
            keyspace: "ks".into(),
            table: "events".into(),
            limit: 500,
            filters: None
        })
    );
    let negative = vec![
        member("keyspace", text("ks")),
        member("table", text("events")),
        member("limit", JsonValue::Int(-5)),
    ];
    assert_eq!(
        parse_tool_call("sample_rows", Some(&negative)),
        Err("missing required arguments 'keyspace', 'table', or 'limit'".to_string())
    );
}

#[test]
fn select_is_read_with_its_options() {
    let filters = vec![member("id", JsonValue::Int(1))];
    let args = vec![
        member("keyspace", text("ks")),
        member("table", text("events")),
        member(
            "columns",
            JsonValue::Array(vec![text("id"), JsonValue::Int(3), text("ts"), JsonValue::Null]),
        ),
        member("limit", JsonValue::Int(20)),
        member("filters", JsonValue::Object(vec![member("id", JsonValue::Int(1))])),
        member(
            "orderBy",
            JsonValue::Array(vec![
                order_item("ts", "desc"),
                JsonValue::Text("ts".into()),
                JsonValue::Object(vec![member("column", text("seq"))]),
                JsonValue::Object(vec![member("direction", text("asc"))]),
                JsonValue::Object(vec![
                    member("column", text("n")),
                    member("direction", JsonValue::Int(1)),
                ]),
            ]),
        ),
    ];
    assert_eq!(
        parse_tool_call("select", Some(&args)),
        Ok(ToolCall::Select {
            keyspace: "ks".into(),
            table: "events".into(),
            columns: names(&["id", "ts"]),
            limit: 20,
            filters: Some(&filters),
            order_by: Some(vec![
                ("ts".into(), "desc".into()),
                ("seq".into(), "asc".into()),
                ("n".into(), "asc".into()),
            ]),
        })
    );
    let missing = vec![member("keyspace", text("ks")), member("table", text("events"))];
    assert_eq!(
        parse_tool_call("select", Some(&missing)),
        Err("missing required arguments 'keyspace', 'table', 'columns', or 'limit'".to_string())
    );
}

#[test]
fn paged_select_is_read_with_its_cursor() {
    let args = vec![
        member("keyspace", text("ks")),
        member("table", text("events")),
        member("columns", texts(&["id"])),
        member("page_size", JsonValue::Int(500)),
    ];
    assert_eq!(
        parse_tool_call("paged_select", Some(&args)),
        Ok(ToolCall::PagedSelect {
            keyspace: "ks".into(),
            table: "events".into(),
            columns: names(&["id"]),
            page_size: 500,
            filters: None,
            order_by: None,
            cursor: None,
        })
    );
    let more = vec![
        member("keyspace", text("ks")),
        member("table", text("events")),
        member("columns", texts(&["id"])),
        member("page_size", JsonValue::Int(9999)),
        member("cursor", text("AAEC")),
    ];
    assert_eq!(
        parse_tool_call("paged_select", Some(&more)),
        Ok(ToolCall::PagedSelect {
            keyspace: "ks".into(),
            table: "events".into(),
            columns: names(&["id"]),
            page_size: 500,
            filters: None,
            order_by: None,
            cursor: Some("AAEC".into()),
        })
    );
    assert_eq!(
        parse_tool_call("paged_select", None),
        Err(
            "missing required arguments 'keyspace', 'table', 'columns', or 'page_size'"
                .to_string()
        )
    );
}

#[test]
fn partition_rows_is_read() {
    let partition = vec![member("id", JsonValue::Int(1))];
    let args = vec![
        member("keyspace", text("ks")),
        member("table", text("events")),
        member("partition", JsonValue::Object(vec![member("id", JsonValue::Int(1))])),
        member("limit", JsonValue::Int(3)),
    ];
    assert_eq!(
        parse_tool_call("partition_rows", Some(&args)),
        Ok(ToolCall::PartitionRows {
            keyspace: "ks".into(),
            table: "events".into(),
            partition: &partition,
            limit: 3
        })
    );
    let not_an_object = vec![
        member("keyspace", text("ks")),
        member("table", text("events")),
        member("partition", text("id=1")),
        member("limit", JsonValue::Int(3)),
    ];
    assert_eq!(
        parse_tool_call("partition_rows", Some(&not_an_object)),
        Err("missing required arguments 'keyspace','table','partition','limit'".to_string())
    );
}

#[test]
fn search_schema_is_read() {
    let args = vec![member("pattern", text("user"))];
    assert_eq!(
        parse_tool_call("search_schema", Some(&args)),
        Ok(ToolCall::SearchSchema { pattern: "user".into(), keyspace: None })
    );
    let scoped = vec![member("keyspace", text("ks")), member("pattern", text("user"))];
    assert_eq!(
        parse_tool_call("search_schema", Some(&scoped)),
        Ok(ToolCall::SearchSchema { pattern: "user".into(), keyspace: Some("ks".into()) })
    );
    assert_eq!(
        parse_tool_call("search_schema", None),
        Err("missing required argument 'pattern'".to_string())
    );
}

#[test]
fn unknown_tools_are_turned_down() {
    assert_eq!(
        parse_tool_call("insert_row", None),
        Err("tool 'insert_row' is not yet implemented (read-only phase)".to_string())
    );
    assert_eq!(
        parse_tool_call("", None),
        Err("tool '' is not yet implemented (read-only phase)".to_string())
    );
}

#[test]
fn ordering_by_a_clustering_key_is_accepted() {
    let args = select_args(Some(JsonValue::Array(vec![order_item("ts", "desc")])));
    let call = parse_tool_call("select", Some(&args)).unwrap();
    assert_eq!(check_call(&call, &events()), None);
    assert_eq!(call.action_after_schema(Ok(&events())), CallAction::Execute);
}

#[test]
fn ordering_by_a_partition_key_is_refused() {
    let args = select_args(Some(JsonValue::Array(vec![order_item("id", "asc")])));
    let call = parse_tool_call("select", Some(&args)).unwrap();
    let expected =
        "invalid order_by column 'id'; only clustering keys are allowed: [\"ts\"]".to_string();
    assert_eq!(check_call(&call, &events()), Some(expected.clone()));
    assert_eq!(call.action_after_schema(Ok(&events())), CallAction::Reply(expected));
}

#[test]
fn ordering_by_a_regular_column_is_refused() {
    let args = select_args(Some(JsonValue::Array(vec![
        order_item("ts", "asc"),
        order_item("payload", "desc"),
    ])));
    let call = parse_tool_call("select", Some(&args)).unwrap();
    assert_eq!(
        check_call(&call, &events()),
        Some(
            "invalid order_by column 'payload'; only clustering keys are allowed: [\"ts\"]"
                .to_string()
        )
    );
}

#[test]
fn unknown_columns_and_filters_are_refused_first() {
    let args = vec![
        member("keyspace", text("ks")),
        member("table", text("events")),
        member("columns", texts(&["id", "nope"])),
        member("limit", JsonValue::Int(10)),
        member("filters", JsonValue::Object(vec![member("ghost", JsonValue::Int(1))])),
        member("order_by", JsonValue::Array(vec![order_item("payload", "asc")])),
    ];
    let call = parse_tool_call("select", Some(&args)).unwrap();
    assert_eq!(
        check_call(&call, &events()),
        Some("invalid column 'nope' in select; not in table columns".to_string())
    );
    let args = vec![
        member("keyspace", text("ks")),
        member("table", text("events")),
        member("columns", texts(&["id"])),
        member("limit", JsonValue::Int(10)),
        member("filters", JsonValue::Object(vec![member("ghost", JsonValue::Int(1))])),
        member("order_by", JsonValue::Array(vec![order_item("payload", "asc")])),
    ];
    let call = parse_tool_call("select", Some(&args)).unwrap();
    assert_eq!(
        check_call(&call, &events()),
        Some("invalid filter column 'ghost'; not in table columns".to_string())
    );
}

#[test]
fn paged_select_complaints_are_short() {
    let base = |extra: Vec<Member>, columns: &[&str]| {
        let mut args = vec![
            member("keyspace", text("ks")),
            member("table", text("events")),
            member("columns", texts(columns)),
            member("page_size", JsonValue::Int(10)),
        ];
        args.extend(extra);
        args
    };
    let args = base(vec![], &["nope"]);
    let call = parse_tool_call("paged_select", Some(&args)).unwrap();
    assert_eq!(check_call(&call, &events()), Some("invalid column 'nope'".to_string()));
    let args =
        base(vec![member("filters", JsonValue::Object(vec![member("x", JsonValue::Int(1))]))], &["id"]);
    let call = parse_tool_call("paged_select", Some(&args)).unwrap();
    assert_eq!(check_call(&call, &events()), Some("invalid filter column 'x'".to_string()));
    let args =
        base(vec![member("order_by", JsonValue::Array(vec![order_item("id", "asc")]))], &["id"]);
    let call = parse_tool_call("paged_select", Some(&args)).unwrap();
    assert_eq!(check_call(&call, &events()), Some("invalid order_by column 'id'".to_string()));
    let args =
        base(vec![member("order_by", JsonValue::Array(vec![order_item("ts", "asc")]))], &["id"]);
    let call = parse_tool_call("paged_select", Some(&args)).unwrap();
    assert_eq!(check_call(&call, &events()), None);
}

#[test]
fn sample_rows_filters_must_be_columns() {
    let args = vec![
        member("keyspace", text("ks")),
        member("table", text("events")),
        member("limit", JsonValue::Int(5)),
        member(
            "filters",
            JsonValue::Object(vec![member("id", JsonValue::Int(1)), member("zz", JsonValue::Int(2))]),
        ),
    ];
    let call = parse_tool_call("sample_rows", Some(&args)).unwrap();
    assert_eq!(call.first_action(), CallAction::FetchSchema);
    assert_eq!(
        check_call(&call, &events()),
        Some("invalid filter column 'zz'; not in table columns".to_string())
    );
    let plain = vec![
        member("keyspace", text("ks")),
        member("table", text("events")),
        member("limit", JsonValue::Int(5)),
    ];
    let call = parse_tool_call("sample_rows", Some(&plain)).unwrap();
    assert_eq!(call.first_action(), CallAction::Execute);
}

#[test]
fn partition_keys_are_checked_as_a_set() {
    let with = |partition: Vec<Member>| {
        vec![
            member("keyspace", text("ks")),
            member("table", text("events")),
            member("partition", JsonValue::Object(partition)),
            member("limit", JsonValue::Int(5)),
        ]
    };
    let complaint = Some("partition keys mismatch: expected [\"id\"]".to_string());
    let exact = with(vec![member("id", JsonValue::Int(1))]);
    let call = parse_tool_call("partition_rows", Some(&exact)).unwrap();
    assert_eq!(check_call(&call, &events()), None);
    let subset = with(vec![]);
    let call = parse_tool_call("partition_rows", Some(&subset)).unwrap();
    assert_eq!(check_call(&call, &events()), complaint);
    let superset = with(vec![member("id", JsonValue::Int(1)), member("ts", JsonValue::Int(2))]);
    let call = parse_tool_call("partition_rows", Some(&superset)).unwrap();
    assert_eq!(check_call(&call, &events()), complaint);
    assert_eq!(
        call.action_after_schema(Ok(&events())),
        CallAction::Reply("partition keys mismatch: expected [\"id\"]".to_string())
    );
}

#[test]
fn actions_follow_the_kind_of_call() {
    let table = vec![member("keyspace", text("ks")), member("table", text("events"))];
    let describe = parse_tool_call("describe_table", Some(&table)).unwrap();
    assert_eq!(describe.first_action(), CallAction::FetchSchema);
    assert_eq!(describe.action_after_schema(Ok(&events())), CallAction::DeliverSchema);
    assert_eq!(
        describe.action_after_schema(Err("connection refused")),
        CallAction::Reply("describe_table failed: connection refused".to_string())
    );
    let args = select_args(None);
    let select = parse_tool_call("select", Some(&args)).unwrap();
    assert_eq!(select.first_action(), CallAction::FetchSchema);
    assert_eq!(
        select.action_after_schema(Err("timed out")),
        CallAction::Reply("select failed: schema fetch failed: timed out".to_string())
    );
    let indexes = parse_tool_call("list_indexes", Some(&table)).unwrap();
    assert_eq!(indexes.first_action(), CallAction::Execute);
    assert_eq!(parse_tool_call("list_keyspaces", None).unwrap().first_action(), CallAction::Execute);
}

#[test]
fn failures_name_the_operation() {
    let table = vec![member("keyspace", text("ks")), member("table", text("events"))];
    let pairs = [
        ("list_keyspaces", None),
        ("cluster_topology", None),
        ("describe_table", Some(&table)),
        ("list_indexes", Some(&table)),
        ("size_estimates", Some(&table)),
        ("list_tables", Some(&table)),
        ("keyspace_replication", Some(&table)),
        ("list_views", Some(&table)),
        ("list_udts", Some(&table)),
        ("list_functions", Some(&table)),
        ("list_aggregates", Some(&table)),
    ];
    for (tool, args) in pairs {
        let call = parse_tool_call(tool, args).unwrap();
        assert_eq!(call.name(), tool);
        assert_eq!(call.failure_reply("boom"), format!("{tool} failed: boom"));
    }
}

#[test]
fn helpers_pick_names() {
    assert_eq!(column_name_list(&events().columns), names(&["id", "ts", "payload"]));
    assert_eq!(find_missing(&names(&["a", "x", "y"]), &names(&["a", "b"])), Some("x".to_string()));
    assert_eq!(find_missing(&names(&["a", "b"]), &names(&["b", "a"])), None);
    assert_eq!(find_missing(&names(&[]), &names(&[])), None);
    assert_eq!(texts_of(&vec![text("a"), JsonValue::Bool(true), text("b")]), names(&["a", "b"]));
    assert_eq!(
        ordering_of(&vec![order_item("a", "DESC"), JsonValue::Null]),
        vec![("a".to_string(), "DESC".to_string())]
    );
}
