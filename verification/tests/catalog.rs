use scylla_rust_mcp::catalog::{
    catalog_query_text, catalog_statement, replication_record, topology_records, CatalogQuery,
};
use scylla_rust_mcp::codec::{row_to_record, rows_to_records};
use scylla_rust_mcp::cql::{MapEntry, TypedValue};
use scylla_rust_mcp::json::{find_member, finite_bits, get_member, set_member, JsonValue, Member};
use scylla_rust_mcp::query::Statement;

fn names(list: &[&str]) -> Vec<String> {
    list.iter().map(|s| s.to_string()).collect()
}

fn text(s: &str) -> JsonValue {
    JsonValue::Text(s.to_string())
}

fn member(name: &str, value: JsonValue) -> Member {
    Member { name: name.to_string(), value }
}

#[test]
fn catalog_statements_bind_their_names() {
    assert_eq!(
        catalog_statement(CatalogQuery::Keyspaces, "ks", "t"),
        Statement {
            text: "SELECT keyspace_name FROM system_schema.keyspaces".to_string(),
            values: vec![]
        }
    );
    assert_eq!(
        catalog_statement(CatalogQuery::Tables, "ks", "t"),
        Statement {
            text: "SELECT table_name FROM system_schema.tables WHERE keyspace_name = ?"
                .to_string(),
            values: vec![TypedValue::Text("ks".into())]
        }
    );
    assert_eq!(
        catalog_statement(CatalogQuery::Columns, "ks; --", "t"),
        Statement {
            text: "SELECT column_name, kind, position, type, clustering_order FROM system_schema.columns WHERE keyspace_name = ? AND table_name = ?".to_string(),
            values: vec![TypedValue::Text("ks; --".into()), TypedValue::Text("t".into())]
        }
    );
    for (query, values) in [
        (CatalogQuery::LocalNode, 0),
        (CatalogQuery::PeerNodes, 0),
        (CatalogQuery::Replication, 1),
        (CatalogQuery::Views, 1),
        (CatalogQuery::Udts, 1),
        (CatalogQuery::Functions, 1),
        (CatalogQuery::Aggregates, 1),
        (CatalogQuery::Indexes, 2),
        (CatalogQuery::SizeEstimates, 2),
    ] {
        let statement = catalog_statement(query, "ks", "t");
        assert_eq!(statement.values.len(), values);
        assert_eq!(statement.text.matches('?').count(), values);
        assert_eq!(statement.text, catalog_query_text(query));
    }
    assert_eq!(
        catalog_query_text(CatalogQuery::LocalNode),
        "SELECT host_id, data_center, rack, rpc_address FROM system.local"
    );
    assert_eq!(
        catalog_query_text(CatalogQuery::PeerNodes),
        "SELECT host_id, data_center, rack, rpc_address FROM system.peers"
    );
    assert_eq!(
        catalog_query_text(CatalogQuery::Indexes),
        "SELECT index_name FROM system_schema.indexes WHERE keyspace_name = ? AND table_name = ?"
    );
    assert_eq!(
        catalog_query_text(CatalogQuery::Replication),
        "SELECT replication, durable_writes FROM system_schema.keyspaces WHERE keyspace_name = ?"
    );
    assert_eq!(
        catalog_query_text(CatalogQuery::Udts),
        "SELECT type_name FROM system_schema.types WHERE keyspace_name = ?"
    );
    assert_eq!(
        catalog_query_text(CatalogQuery::SizeEstimates),
        "SELECT range_start, range_end, mean_partition_size, partitions_count FROM system.size_estimates WHERE keyspace_name = ? AND table_name = ?"
    );
}

#[test]
fn rows_decode_in_the_column_order_of_the_result() {
    let columns = names(&["zeta", "alpha", "mid"]);
    let row = vec![Some(TypedValue::Int(1)), None, Some(TypedValue::Boolean(true))];
    assert_eq!(
        row_to_record(&columns, &row),
        vec![
            member("zeta", JsonValue::Int(1)),
            member("alpha", JsonValue::Null),
            member("mid", JsonValue::Bool(true)),
        ]
    );
    let short = vec![Some(TypedValue::Int(1))];
    assert_eq!(
        row_to_record(&columns, &short),
        vec![
            member("zeta", JsonValue::Int(1)),
            member("alpha", JsonValue::Null),
            member("mid", JsonValue::Null),
        ]
    );
    let twice = names(&["a", "b", "a"]);
    let row = vec![Some(TypedValue::Int(1)), Some(TypedValue::Int(2)), Some(TypedValue::Int(3))];
    assert_eq!(
        row_to_record(&twice, &row),
        vec![member("a", JsonValue::Int(3)), member("b", JsonValue::Int(2))]
    );
    assert_eq!(
        rows_to_records(&names(&["n"]), &vec![vec![Some(TypedValue::Int(1))], vec![None]]),
        vec![vec![member("n", JsonValue::Int(1))], vec![member("n", JsonValue::Null)]]
    );
}

#[test]
fn topology_tags_each_node_with_its_source() {
    let columns = names(&["host_id", "rack"]);
    let local = vec![vec![Some(TypedValue::Uuid([1; 16])), Some(TypedValue::Text("r1".into()))]];
    let peers = vec![
        vec![Some(TypedValue::Uuid([2; 16])), Some(TypedValue::Text("r2".into()))],
        vec![Some(TypedValue::Uuid([3; 16])), None],
    ];
    assert_eq!(
        topology_records(&columns, &local, &columns, &peers),
        vec![
            vec![
                member("host_id", text("01010101-0101-0101-0101-010101010101")),
                member("rack", text("r1")),
                member("source", text("local")),
            ],
            vec![
                member("host_id", text("02020202-0202-0202-0202-020202020202")),
                member("rack", text("r2")),
                member("source", text("peers")),
            ],
            vec![
                member("host_id", text("03030303-0303-0303-0303-030303030303")),
                member("rack", JsonValue::Null),
                member("source", text("peers")),
            ],
        ]
    );
    let with_source = names(&["source", "rack"]);
    assert_eq!(
        topology_records(&with_source, &local, &columns, &vec![]),
        vec![vec![member("source", text("local")), member("rack", text("r1"))]]
    );
}

#[test]
fn replication_settings_come_from_the_first_row() {
    let entry = |k: &str, v: &str| MapEntry {
        key: TypedValue::Text(k.to_string()),
        key_debug: String::new(),
        value: TypedValue::Text(v.to_string()),
    };
    let rows = vec![
        vec![
            Some(TypedValue::MapOf(vec![
                entry("class", "org.apache.cassandra.locator.SimpleStrategy"),
                entry("replication_factor", "3"),
            ])),
            Some(TypedValue::Boolean(true)),
        ],
        vec![Some(TypedValue::MapOf(vec![])), Some(TypedValue::Boolean(false))],
    ];
    assert_eq!(
        replication_record(&rows),
        vec![
            member(
                "replication",
                JsonValue::Object(vec![
                    member("class", text("org.apache.cassandra.locator.SimpleStrategy")),
                    member("replication_factor", text("3")),
                ])
            ),
            member("durable_writes", JsonValue::Bool(true)),
        ]
    );
    assert_eq!(replication_record(&vec![]), vec![]);
    assert_eq!(
        replication_record(&vec![vec![None, Some(TypedValue::Boolean(false))]]),
        vec![member("durable_writes", JsonValue::Bool(false))]
    );
    assert_eq!(
        replication_record(&vec![vec![Some(TypedValue::MapOf(vec![]))]]),
        vec![member("replication", JsonValue::Object(vec![]))]
    );
    assert_eq!(
        replication_record(&vec![vec![Some(TypedValue::Text("x".into())), Some(TypedValue::Int(1))]]),
        vec![]
    );
}

#[test]
fn members_are_set_and_found() {
    let mut members = vec![member("a", JsonValue::Int(1)), member("b", JsonValue::Int(2))];
    assert_eq!(find_member(&members, "a"), 0);
    assert_eq!(find_member(&members, "b"), 1);
    assert_eq!(find_member(&members, "c"), 2);
    set_member(&mut members, "a".to_string(), JsonValue::Null);
    set_member(&mut members, "c".to_string(), JsonValue::Bool(true));
    assert_eq!(
        members,
        vec![
            member("a", JsonValue::Null),
            member("b", JsonValue::Int(2)),
            member("c", JsonValue::Bool(true)),
        ]
    );
    assert_eq!(get_member(&members, "b"), Some(&JsonValue::Int(2)));
    assert_eq!(get_member(&members, "z"), None);
}

#[test]
fn finite_numbers_are_told_by_their_bits() {
    for finite in [0.0f64, -0.0, 1.0, -1.5, f64::MAX, f64::MIN, f64::MIN_POSITIVE, 5e-324] {
        assert!(finite_bits(finite.to_bits()), "{finite}");
    }
    for other in [f64::NAN, f64::INFINITY, f64::NEG_INFINITY] {
        assert!(!finite_bits(other.to_bits()), "{other}");
    }
    assert!(!finite_bits(u64::MAX));
    assert!(!finite_bits(0x7ff0_0000_0000_0001));
    assert!(finite_bits(0x7fef_ffff_ffff_ffff));
}
