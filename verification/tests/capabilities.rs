use scylla_rust_mcp::json::{JsonValue, Member};
use scylla_rust_mcp::server::{
    list_tools, property_record, server_info, tool_input_schema, Property,
};

#[test]
fn server_info_contains_expected_metadata() {
    let info = server_info();
    assert_eq!(info.name, "scylla-rust-mcp");
    assert!(info.instructions.contains("Read-only MCP"));
}

#[test]
fn tools_include_core_read_only_actions() {
    let names: Vec<&str> = list_tools().into_iter().map(|t| t.name).collect();
    let expected = [
        "list_keyspaces",
        "list_tables",
        "describe_table",
        "sample_rows",
        "select",
        "cluster_topology",
    ];
    for e in expected {
        assert!(names.contains(&e), "missing tool {e}");
    }
}

#[test]
fn internal_tools_list_is_nonempty_and_readonly() {
    let tools = list_tools();
    assert!(!tools.is_empty());
    let names: Vec<&str> = tools.iter().map(|t| t.name).collect();
    for n in [
        "list_keyspaces",
        "list_tables",
        "describe_table",
        "sample_rows",
        "select",
        "cluster_topology",
    ] {
        assert!(names.contains(&n), "missing tool {n}");
    }
}

#[test]
fn sixteen_tools_are_listed_in_order() {
    let names: Vec<&str> = list_tools().iter().map(|t| t.name).collect();
    assert_eq!(
        names,
        vec![
            "list_keyspaces",
            "list_tables",
            "describe_table",
            "sample_rows",
            "partition_rows",
            "select",
            "paged_select",
            "cluster_topology",
            "list_indexes",
            "keyspace_replication",
            "list_views",
            "list_udts",
            "list_functions",
            "list_aggregates",
            "size_estimates",
            "search_schema",
        ]
    );
}

#[test]
fn input_schemas_name_what_is_required() {
    let schema = tool_input_schema("list_keyspaces");
    assert!(schema.required.is_empty() && schema.properties.is_empty());
    let schema = tool_input_schema("cluster_topology");
    assert!(schema.required.is_empty() && schema.properties.is_empty());
    let schema = tool_input_schema("no_such_tool");
    assert!(schema.required.is_empty() && schema.properties.is_empty());
    assert_eq!(tool_input_schema("list_tables").required, vec!["keyspace"]);
    assert_eq!(tool_input_schema("describe_table").required, vec!["keyspace", "table"]);
    assert_eq!(tool_input_schema("sample_rows").required, vec!["keyspace", "table", "limit"]);
    assert_eq!(
        tool_input_schema("partition_rows").required,
        vec!["keyspace", "table", "partition", "limit"]
    );
    assert_eq!(
        tool_input_schema("select").required,
        vec!["keyspace", "table", "columns", "limit"]
    );
    assert_eq!(
        tool_input_schema("paged_select").required,
        vec!["keyspace", "table", "columns", "page_size"]
    );
    for tool in ["list_indexes", "size_estimates"] {
        assert_eq!(tool_input_schema(tool).required, vec!["keyspace", "table"]);
    }
    for tool in
        ["keyspace_replication", "list_views", "list_udts", "list_functions", "list_aggregates"]
    {
        assert_eq!(tool_input_schema(tool).required, vec!["keyspace"]);
    }
    assert_eq!(tool_input_schema("search_schema").required, vec!["pattern"]);
}

#[test]
fn input_schemas_describe_the_arguments() {
    let keyspace = Property {
        name: "keyspace",
        kind: "string",
        description: Some("Keyspace name"),
        minimum: None,
        maximum: None,
    };
    let table = Property {
        name: "table",
        kind: "string",
        description: Some("Table name"),
        minimum: None,
        maximum: None,
    };
    let plain = |name: &'static str, kind: &'static str| Property {
        name,
        kind,
        description: None,
        minimum: None,
        maximum: None,
    };
    let rows = |name: &'static str| Property {
        name,
        kind: "integer",
        description: None,
        minimum: Some(1),
        maximum: Some(500),
    };
    assert_eq!(
        tool_input_schema("paged_select").properties,
        vec![
            keyspace.clone(),
            table.clone(),
            plain("columns", "array"),
            rows("page_size"),
            plain("filters", "object"),
            plain("order_by", "array"),
            plain("cursor", "string"),
        ]
    );
    assert_eq!(
        tool_input_schema("sample_rows").properties,
        vec![keyspace.clone(), table.clone(), rows("limit"), plain("filters", "object")]
    );
    assert_eq!(
        tool_input_schema("partition_rows").properties,
        vec![
            keyspace.clone(),
            table.clone(),
            Property {
                name: "partition",
                kind: "object",
                description: Some("Map of partition key column -> value"),
                minimum: None,
                maximum: None,
            },
            rows("limit"),
        ]
    );
    assert_eq!(
        tool_input_schema("search_schema").properties,
        vec![
            Property {
                name: "pattern",
                kind: "string",
                description: Some("Substring to search (case-insensitive)"),
                minimum: None,
                maximum: None,
            },
            Property {
                name: "keyspace",
                kind: "string",
                description: Some("Optional keyspace to scope search"),
                minimum: None,
                maximum: None,
            },
        ]
    );
    assert_eq!(tool_input_schema("list_views").properties, vec![keyspace]);
}

#[test]
fn arguments_are_written_as_records() {
    let limit = Property {
        name: "limit",
        kind: "integer",
        description: None,
        minimum: Some(1),
        maximum: Some(500),
    };
    assert_eq!(
        property_record(&limit),
        vec![
            Member { name: "type".into(), value: JsonValue::Text("integer".into()) },
            Member { name: "minimum".into(), value: JsonValue::Int(1) },
            Member { name: "maximum".into(), value: JsonValue::Int(500) },
        ]
    );
    let keyspace = Property {
        name: "keyspace",
        kind: "string",
        description: Some("Keyspace name"),
        minimum: None,
        maximum: None,
    };
    assert_eq!(
        property_record(&keyspace),
        vec![
            Member { name: "type".into(), value: JsonValue::Text("string".into()) },
            Member { name: "description".into(), value: JsonValue::Text("Keyspace name".into()) },
        ]
    );
}
