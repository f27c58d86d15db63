//! What the gateway says of itself: its name and the operations it offers.

use crate::json::{members_view, Json, JsonValue, Member};
use crate::text::str_eq;
use vstd::prelude::*;
use vstd::string::*;

verus! {

/// The gateway's identity.
#[derive(Debug, Clone, PartialEq)]
pub struct ServerInfo {
    pub name: &'static str,
    pub version: &'static str,
    pub instructions: &'static str,
}

/// One operation on offer.
#[derive(Debug, Clone, PartialEq)]
pub struct Tool {
    pub name: &'static str,
    pub description: &'static str,
}

/// The name and description of each operation in a list, one for one.
pub open spec fn tools_view(tools: Seq<Tool>) -> Seq<(Seq<char>, Seq<char>)> {
    Seq::new(tools.len(), |i: int| (tools[i].name@, tools[i].description@))
}

/// The operations on offer, each with its description, in the order in which
/// they are listed.
pub open spec fn tool_catalog() -> Seq<(Seq<char>, Seq<char>)> {
    seq![
        ("list_keyspaces"@, "List keyspaces in the cluster"@),
        ("list_tables"@, "List tables for a keyspace"@),
        ("describe_table"@, "Describe table schema and types"@),
        ("sample_rows"@, "Sample rows with LIMIT and filters"@),
        ("partition_rows"@, "Fetch rows by full partition key (prepared)"@),
        ("select"@, "Execute read-only SELECT queries"@),
        ("paged_select"@, "Paged SELECT with cursor support"@),
        ("cluster_topology"@, "Get cluster nodes, datacenters, racks"@),
        ("list_indexes"@, "List secondary indexes for a table"@),
        ("keyspace_replication"@, "Show keyspace replication settings"@),
        ("list_views"@, "List materialized views in a keyspace"@),
        ("list_udts"@, "List user-defined types in a keyspace"@),
        ("list_functions"@, "List user-defined functions in a keyspace"@),
        ("list_aggregates"@, "List user-defined aggregates in a keyspace"@),
        ("size_estimates"@, "Approximate size estimates for a table"@),
        (
            "search_schema"@,
            "Search tables, columns, UDTs, views, functions, aggregates by pattern"@,
        ),
    ]
}

/// The gateway's name, version and a line on what it is for.
pub fn server_info() -> (info: ServerInfo)
    ensures
        info.name@ == "scylla-rust-mcp"@,
        info.version@ == "0.1.0"@,
        info.instructions@ == "Read-only MCP server for ScyllaDB"@,
{
    ServerInfo {
        name: "scylla-rust-mcp",
        version: "0.1.0",
        instructions: "Read-only MCP server for ScyllaDB",
    }
}

/// Lists the operations on offer. All of them only read.
pub fn list_tools() -> (tools: Vec<Tool>)
    ensures
        tools_view(tools@) == tool_catalog(),
{
    let mut tools: Vec<Tool> = Vec::new();
    tools.push(Tool { name: "list_keyspaces", description: "List keyspaces in the cluster" });
    tools.push(Tool { name: "list_tables", description: "List tables for a keyspace" });
    tools.push(Tool { name: "describe_table", description: "Describe table schema and types" });
    tools.push(Tool { name: "sample_rows", description: "Sample rows with LIMIT and filters" });
    tools.push(
        Tool {
            name: "partition_rows",
            description: "Fetch rows by full partition key (prepared)",
        },
    );
    tools.push(Tool { name: "select", description: "Execute read-only SELECT queries" });
    tools.push(Tool { name: "paged_select", description: "Paged SELECT with cursor support" });
    tools.push(
        Tool { name: "cluster_topology", description: "Get cluster nodes, datacenters, racks" },
    );
    tools.push(Tool { name: "list_indexes", description: "List secondary indexes for a table" });
    tools.push(
        Tool { name: "keyspace_replication", description: "Show keyspace replication settings" },
    );
    tools.push(Tool { name: "list_views", description: "List materialized views in a keyspace" });
    tools.push(Tool { name: "list_udts", description: "List user-defined types in a keyspace" });
    tools.push(
        Tool { name: "list_functions", description: "List user-defined functions in a keyspace" },
    );
    tools.push(
        Tool {
            name: "list_aggregates",
            description: "List user-defined aggregates in a keyspace",
        },
    );
    tools.push(
        Tool { name: "size_estimates", description: "Approximate size estimates for a table" },
    );
    tools.push(
        Tool {
            name: "search_schema",
            description: "Search tables, columns, UDTs, views, functions, aggregates by pattern",
        },
    );
    assert(tools_view(tools@) =~= tool_catalog());
    tools
}

/// One argument that an operation takes.
#[derive(Debug, Clone, PartialEq)]
pub struct Property {
    pub name: &'static str,
    /// The kind of value: `string`, `integer`, `object` or `array`.
    pub kind: &'static str,
    pub description: Option<&'static str>,
    pub minimum: Option<i64>,
    pub maximum: Option<i64>,
}

/// The arguments that an operation takes, and which of them it requires.
#[derive(Debug, Clone, PartialEq)]
pub struct InputSchema {
    pub required: Vec<&'static str>,
    pub properties: Vec<Property>,
}

/// The mathematical value of a [`Property`].
pub struct PropertyView {
    pub name: Seq<char>,
    pub kind: Seq<char>,
    pub description: Option<Seq<char>>,
    pub minimum: Option<int>,
    pub maximum: Option<int>,
}

/// The mathematical value of an [`InputSchema`].
pub struct InputSchemaView {
    pub required: Seq<Seq<char>>,
    pub properties: Seq<PropertyView>,
}

impl View for Property {
    type V = PropertyView;

    open spec fn view(&self) -> PropertyView {
        PropertyView {
            name: self.name@,
            kind: self.kind@,
            description: match self.description {
                Some(d) => Some(d@),
                None => None,
            },
            minimum: match self.minimum {
                Some(n) => Some(n as int),
                None => None,
            },
            maximum: match self.maximum {
                Some(n) => Some(n as int),
                None => None,
            },
        }
    }
}

impl View for InputSchema {
    type V = InputSchemaView;

    open spec fn view(&self) -> InputSchemaView {
        InputSchemaView {
            required: Seq::new(self.required@.len(), |i: int| self.required@[i]@),
            properties: Seq::new(self.properties@.len(), |i: int| self.properties@[i]@),
        }
    }
}

/// A text argument with a description.
pub open spec fn described_text(name: Seq<char>, description: Seq<char>) -> PropertyView {
    PropertyView {
        name,
        kind: "string"@,
        description: Some(description),
        minimum: None,
        maximum: None,
    }
}

/// An argument of a kind, without description or bounds.
pub open spec fn plain(name: Seq<char>, kind: Seq<char>) -> PropertyView {
    PropertyView { name, kind, description: None, minimum: None, maximum: None }
}

/// A number of rows: an integer from 1 to 500.
pub open spec fn row_count(name: Seq<char>) -> PropertyView {
    PropertyView {
        name,
        kind: "integer"@,
        description: None,
        minimum: Some(1),
        maximum: Some(500),
    }
}

/// The keyspace argument.
pub open spec fn keyspace_property() -> PropertyView {
    described_text("keyspace"@, "Keyspace name"@)
}

/// The table argument.
pub open spec fn table_property() -> PropertyView {
    described_text("table"@, "Table name"@)
}

/// The arguments that the operation of a name requires. An unknown name
/// requires none.
pub open spec fn required_arguments(name: Seq<char>) -> Seq<Seq<char>> {
    if name == "list_keyspaces"@ {
        Seq::empty()
    } else if name == "list_tables"@ {
        seq!["keyspace"@]
    } else if name == "describe_table"@ {
        seq!["keyspace"@, "table"@]
    } else if name == "sample_rows"@ {
        seq!["keyspace"@, "table"@, "limit"@]
    } else if name == "select"@ {
        seq!["keyspace"@, "table"@, "columns"@, "limit"@]
    } else if name == "paged_select"@ {
        seq!["keyspace"@, "table"@, "columns"@, "page_size"@]
    } else if name == "partition_rows"@ {
        seq!["keyspace"@, "table"@, "partition"@, "limit"@]
    } else if name == "cluster_topology"@ {
        Seq::empty()
    } else if name == "list_indexes"@ {
        seq!["keyspace"@, "table"@]
    } else if name == "keyspace_replication"@ {
        seq!["keyspace"@]
    } else if name == "list_views"@ {
        seq!["keyspace"@]
    } else if name == "list_udts"@ {
        seq!["keyspace"@]
    } else if name == "list_functions"@ {
        seq!["keyspace"@]
    } else if name == "list_aggregates"@ {
        seq!["keyspace"@]
    } else if name == "size_estimates"@ {
        seq!["keyspace"@, "table"@]
    } else if name == "search_schema"@ {
        seq!["pattern"@]
    } else {
        Seq::empty()
    }
}

/// The arguments that the operation of a name takes. An unknown name takes
/// none.
pub open spec fn argument_properties(name: Seq<char>) -> Seq<PropertyView> {
    if name == "list_keyspaces"@ {
        Seq::empty()
    } else if name == "list_tables"@ {
        seq![keyspace_property()]
    } else if name == "describe_table"@ {
        seq![keyspace_property(), table_property()]
    } else if name == "sample_rows"@ {
        seq![
            keyspace_property(),
            table_property(),
            row_count("limit"@),
            plain("filters"@, "object"@),
        ]
    } else if name == "select"@ {
        seq![
            keyspace_property(),
            table_property(),
            plain("columns"@, "array"@),
            row_count("limit"@),
            plain("filters"@, "object"@),
            plain("order_by"@, "array"@),
        ]
    } else if name == "paged_select"@ {
        seq![
            keyspace_property(),
            table_property(),
            plain("columns"@, "array"@),
            row_count("page_size"@),
            plain("filters"@, "object"@),
            plain("order_by"@, "array"@),
            plain("cursor"@, "string"@),
        ]
    } else if name == "partition_rows"@ {
        seq![
            keyspace_property(),
            table_property(),
            PropertyView {
                name: "partition"@,
                kind: "object"@,
                description: Some("Map of partition key column -> value"@),
                minimum: None,
                maximum: None,
            },
            row_count("limit"@),
        ]
    } else if name == "cluster_topology"@ {
        Seq::empty()
    } else if name == "list_indexes"@ {
        seq![keyspace_property(), table_property()]
    } else if name == "keyspace_replication"@ {
        seq![keyspace_property()]
    } else if name == "list_views"@ {
        seq![keyspace_property()]
    } else if name == "list_udts"@ {
        seq![keyspace_property()]
    } else if name == "list_functions"@ {
        seq![keyspace_property()]
    } else if name == "list_aggregates"@ {
        seq![keyspace_property()]
    } else if name == "size_estimates"@ {
        seq![keyspace_property(), table_property()]
    } else if name == "search_schema"@ {
        seq![
            described_text("pattern"@, "Substring to search (case-insensitive)"@),
            described_text("keyspace"@, "Optional keyspace to scope search"@),
        ]
    } else {
        Seq::empty()
    }
}

fn keyspace_argument() -> (property: Property)
    ensures
        property@ == keyspace_property(),
{
    Property {
        name: "keyspace",
        kind: "string",
        description: Some("Keyspace name"),
        minimum: None,
        maximum: None,
    }
}

fn table_argument() -> (property: Property)
    ensures
        property@ == table_property(),
{
    Property {
        name: "table",
        kind: "string",
        description: Some("Table name"),
        minimum: None,
        maximum: None,
    }
}

fn plain_argument(name: &'static str, kind: &'static str) -> (property: Property)
    ensures
        property@ == plain(name@, kind@),
{
    Property { name, kind, description: None, minimum: None, maximum: None }
}

fn row_count_argument(name: &'static str) -> (property: Property)
    ensures
        property@ == row_count(name@),
{
    Property { name, kind: "integer", description: None, minimum: Some(1), maximum: Some(500) }
}

/// Describes the arguments of the operation of a name.
pub fn tool_input_schema(name: &str) -> (schema: InputSchema)
    ensures
        schema@.required == required_arguments(name@),
        schema@.properties == argument_properties(name@),
{
    let mut required: Vec<&'static str> = Vec::new();
    let mut properties: Vec<Property> = Vec::new();
    if str_eq(name, "list_keyspaces") {
    } else if str_eq(name, "list_tables") {
        required.push("keyspace");
        properties.push(keyspace_argument());
    } else if str_eq(name, "describe_table") {
        required.push("keyspace");
        required.push("table");
        properties.push(keyspace_argument());
        properties.push(table_argument());
    } else if str_eq(name, "sample_rows") {
        required.push("keyspace");
        required.push("table");
        required.push("limit");
        properties.push(keyspace_argument());
        properties.push(table_argument());
        properties.push(row_count_argument("limit"));
        properties.push(plain_argument("filters", "object"));
    } else if str_eq(name, "select") {
        required.push("keyspace");
        required.push("table");
        required.push("columns");
        required.push("limit");
        properties.push(keyspace_argument());
        properties.push(table_argument());
        properties.push(plain_argument("columns", "array"));
        properties.push(row_count_argument("limit"));
        properties.push(plain_argument("filters", "object"));
        properties.push(plain_argument("order_by", "array"));
    } else if str_eq(name, "paged_select") {
        required.push("keyspace");
        required.push("table");
        required.push("columns");
        required.push("page_size");
        properties.push(keyspace_argument());
        properties.push(table_argument());
        properties.push(plain_argument("columns", "array"));
        properties.push(row_count_argument("page_size"));
        properties.push(plain_argument("filters", "object"));
        properties.push(plain_argument("order_by", "array"));
        properties.push(plain_argument("cursor", "string"));
    } else if str_eq(name, "partition_rows") {
        required.push("keyspace");
        required.push("table");
        required.push("partition");
        required.push("limit");
        properties.push(keyspace_argument());
        properties.push(table_argument());
        properties.push(
            Property {
                name: "partition",
                kind: "object",
                description: Some("Map of partition key column -> value"),
                minimum: None,
                maximum: None,
            },
        );
        properties.push(row_count_argument("limit"));
    } else if str_eq(name, "cluster_topology") {
    } else if str_eq(name, "list_indexes") {
        required.push("keyspace");
        required.push("table");
        properties.push(keyspace_argument());
        properties.push(table_argument());
    } else if str_eq(name, "keyspace_replication") {
        required.push("keyspace");
        properties.push(keyspace_argument());
    } else if str_eq(name, "list_views") {
        required.push("keyspace");
        properties.push(keyspace_argument());
    } else if str_eq(name, "list_udts") {
        required.push("keyspace");
        properties.push(keyspace_argument());
    } else if str_eq(name, "list_functions") {
        required.push("keyspace");
        properties.push(keyspace_argument());
    } else if str_eq(name, "list_aggregates") {
        required.push("keyspace");
        properties.push(keyspace_argument());
    } else if str_eq(name, "size_estimates") {
        required.push("keyspace");
        required.push("table");
        properties.push(keyspace_argument());
        properties.push(table_argument());
    } else if str_eq(name, "search_schema") {
        required.push("pattern");
        properties.push(
            Property {
                name: "pattern",
                kind: "string",
                description: Some("Substring to search (case-insensitive)"),
                minimum: None,
                maximum: None,
            },
        );
        properties.push(
            Property {
                name: "keyspace",
                kind: "string",
                description: Some("Optional keyspace to scope search"),
                minimum: None,
                maximum: None,
            },
        );
    }
    let schema = InputSchema { required, properties };
    assert(schema@.required =~= required_arguments(name@));
    assert(schema@.properties =~= argument_properties(name@));
    schema
}

/// The description of an argument as a record: its kind under `type`, then
/// its description, its minimum and its maximum, each where it has one.
pub open spec fn property_entries(property: PropertyView) -> Seq<(Seq<char>, Json)> {
    let kind = seq![("type"@, Json::Text(property.kind))];
    let described = match property.description {
        Some(d) => kind.push(("description"@, Json::Text(d))),
        None => kind,
    };
    let bounded_below = match property.minimum {
        Some(n) => described.push(("minimum"@, Json::Int(n))),
        None => described,
    };
    match property.maximum {
        Some(n) => bounded_below.push(("maximum"@, Json::Int(n))),
        None => bounded_below,
    }
}

/// Writes the description of an argument as a record.
pub fn property_record(property: &Property) -> (record: Vec<Member>)
    ensures
        members_view(record@) == property_entries(property@),
{
    let mut record: Vec<Member> = Vec::new();
    record.push(
        Member {
            name: String::from_str("type"),
            value: JsonValue::Text(String::from_str(property.kind)),
        },
    );
    match property.description {
        Some(d) => {
            record.push(
                Member {
                    name: String::from_str("description"),
                    value: JsonValue::Text(String::from_str(d)),
                },
            );
        },
        None => {},
    }
    match property.minimum {
        Some(n) => {
            record.push(Member { name: String::from_str("minimum"), value: JsonValue::Int(n) });
        },
        None => {},
    }
    match property.maximum {
        Some(n) => {
            record.push(Member { name: String::from_str("maximum"), value: JsonValue::Int(n) });
        },
        None => {},
    }
    assert(members_view(record@) =~= property_entries(property@));
    record
}

} // verus!
