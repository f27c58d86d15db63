//! The fixed statements that read the cluster's own tables, and the shape of
//! what is answered from them.

use crate::codec::{
    collect_entries, entries_to_members, entry_pairs, record_of, row_to_record,
};
use crate::cql::{rows_view, slots_view, Typed, TypedValue};
use crate::json::{members_view, set_member, with_entry, Json, JsonValue, Member};
use crate::query::{Statement, StatementView};
use vstd::prelude::*;
use vstd::string::*;

verus! {

/// A read of one of the cluster's own tables.
#[derive(Debug, Clone, Copy, PartialEq, Eq)]
pub enum CatalogQuery {
    /// The names of all keyspaces.
    Keyspaces,
    /// The names of a keyspace's tables.
    Tables,
    /// The columns of a table.
    Columns,
    /// The names of a table's secondary indexes.
    Indexes,
    /// A keyspace's replication settings.
    Replication,
    /// The names of a keyspace's materialized views.
    Views,
    /// The names of a keyspace's user-defined types.
    Udts,
    /// A keyspace's user-defined functions.
    Functions,
    /// A keyspace's user-defined aggregates.
    Aggregates,
    /// The size estimates of a table.
    SizeEstimates,
    /// The node that is connected to.
    LocalNode,
    /// The other nodes that this one knows.
    PeerNodes,
}

/// What a read is narrowed by.
pub enum Scope {
    /// Nothing: the read takes no value.
    Cluster,
    /// A keyspace: the read takes its name.
    Keyspace,
    /// A table: the read takes the keyspace's name, then the table's.
    Table,
}

/// What each read is narrowed by.
pub open spec fn scope_of(query: CatalogQuery) -> Scope {
    match query {
        CatalogQuery::Keyspaces => Scope::Cluster,
        CatalogQuery::LocalNode => Scope::Cluster,
        CatalogQuery::PeerNodes => Scope::Cluster,
        CatalogQuery::Columns => Scope::Table,
        CatalogQuery::Indexes => Scope::Table,
        CatalogQuery::SizeEstimates => Scope::Table,
        _ => Scope::Keyspace,
    }
}

/// The text of each read.
pub open spec fn catalog_text(query: CatalogQuery) -> Seq<char> {
    match query {
        CatalogQuery::Keyspaces => "SELECT keyspace_name FROM system_schema.keyspaces"@,
        CatalogQuery::Tables =>
            "SELECT table_name FROM system_schema.tables WHERE keyspace_name = ?"@,
        CatalogQuery::Columns =>
            "SELECT column_name, kind, position, type, clustering_order FROM system_schema.columns WHERE keyspace_name = ? AND table_name = ?"@,
        CatalogQuery::Indexes =>
            "SELECT index_name FROM system_schema.indexes WHERE keyspace_name = ? AND table_name = ?"@,
        CatalogQuery::Replication =>
            "SELECT replication, durable_writes FROM system_schema.keyspaces WHERE keyspace_name = ?"@,
        CatalogQuery::Views =>
            "SELECT view_name FROM system_schema.views WHERE keyspace_name = ?"@,
        CatalogQuery::Udts =>
            "SELECT type_name FROM system_schema.types WHERE keyspace_name = ?"@,
        CatalogQuery::Functions =>
            "SELECT function_name, argument_types, return_type FROM system_schema.functions WHERE keyspace_name = ?"@,
        CatalogQuery::Aggregates =>
            "SELECT aggregate_name, argument_types, return_type FROM system_schema.aggregates WHERE keyspace_name = ?"@,
        CatalogQuery::SizeEstimates =>
            "SELECT range_start, range_end, mean_partition_size, partitions_count FROM system.size_estimates WHERE keyspace_name = ? AND table_name = ?"@,
        CatalogQuery::LocalNode =>
            "SELECT host_id, data_center, rack, rpc_address FROM system.local"@,
        CatalogQuery::PeerNodes =>
            "SELECT host_id, data_center, rack, rpc_address FROM system.peers"@,
    }
}

/// The values that each read binds, in order.
pub open spec fn catalog_values(query: CatalogQuery, keyspace: Seq<char>, table: Seq<char>) -> Seq<
    Typed,
> {
    match scope_of(query) {
        Scope::Cluster => Seq::empty(),
        Scope::Keyspace => seq![Typed::Text(keyspace)],
        Scope::Table => seq![Typed::Text(keyspace), Typed::Text(table)],
    }
}

/// Gives the text of a read.
pub fn catalog_query_text(query: CatalogQuery) -> (text: &'static str)
    ensures
        text@ == catalog_text(query),
{
    match query {
        CatalogQuery::Keyspaces => "SELECT keyspace_name FROM system_schema.keyspaces",
        CatalogQuery::Tables =>
            "SELECT table_name FROM system_schema.tables WHERE keyspace_name = ?",
        CatalogQuery::Columns =>
            "SELECT column_name, kind, position, type, clustering_order FROM system_schema.columns WHERE keyspace_name = ? AND table_name = ?",
        CatalogQuery::Indexes =>
            "SELECT index_name FROM system_schema.indexes WHERE keyspace_name = ? AND table_name = ?",
        CatalogQuery::Replication =>
            "SELECT replication, durable_writes FROM system_schema.keyspaces WHERE keyspace_name = ?",
        CatalogQuery::Views =>
            "SELECT view_name FROM system_schema.views WHERE keyspace_name = ?",
        CatalogQuery::Udts =>
            "SELECT type_name FROM system_schema.types WHERE keyspace_name = ?",
        CatalogQuery::Functions =>
            "SELECT function_name, argument_types, return_type FROM system_schema.functions WHERE keyspace_name = ?",
        CatalogQuery::Aggregates =>
            "SELECT aggregate_name, argument_types, return_type FROM system_schema.aggregates WHERE keyspace_name = ?",
        CatalogQuery::SizeEstimates =>
            "SELECT range_start, range_end, mean_partition_size, partitions_count FROM system.size_estimates WHERE keyspace_name = ? AND table_name = ?",
        CatalogQuery::LocalNode =>
            "SELECT host_id, data_center, rack, rpc_address FROM system.local",
        CatalogQuery::PeerNodes =>
            "SELECT host_id, data_center, rack, rpc_address FROM system.peers",
    }
}

/// Builds the statement of a read. The keyspace's and the table's name are
/// bound, never written into the text; a name that the read does not take is
/// left aside.
pub fn catalog_statement(query: CatalogQuery, keyspace: &str, table: &str) -> (statement: Statement)
    ensures
        statement@ == (StatementView {
            text: catalog_text(query),
            values: catalog_values(query, keyspace@, table@),
        }),
{
    let text = String::from_str(catalog_query_text(query));
    let mut values: Vec<TypedValue> = Vec::new();
    match query {
        CatalogQuery::Keyspaces => {},
        CatalogQuery::LocalNode => {},
        CatalogQuery::PeerNodes => {},
        CatalogQuery::Columns => {
            values.push(TypedValue::Text(keyspace.to_owned()));
            values.push(TypedValue::Text(table.to_owned()));
        },
        CatalogQuery::Indexes => {
            values.push(TypedValue::Text(keyspace.to_owned()));
            values.push(TypedValue::Text(table.to_owned()));
        },
        CatalogQuery::SizeEstimates => {
            values.push(TypedValue::Text(keyspace.to_owned()));
            values.push(TypedValue::Text(table.to_owned()));
        },
        _ => {
            values.push(TypedValue::Text(keyspace.to_owned()));
        },
    }
    let statement = Statement { text, values };
    assert(statement@.values =~= catalog_values(query, keyspace@, table@));
    statement
}

/// Each row's record with its source set.
pub open spec fn tagged_records(
    names: Seq<Seq<char>>,
    rows: Seq<Seq<Option<Typed>>>,
    source: Seq<char>,
) -> Seq<Seq<(Seq<char>, Json)>> {
    Seq::new(
        rows.len(),
        |k: int| with_entry(record_of(names, rows[k]), "source"@, Json::Text(source)),
    )
}

/// The nodes of the cluster: the records of the local node's rows, each with
/// `source` set to `local`, then those of the peers' rows, each with `source`
/// set to `peers`.
pub open spec fn topology(
    local_names: Seq<Seq<char>>,
    local_rows: Seq<Seq<Option<Typed>>>,
    peer_names: Seq<Seq<char>>,
    peer_rows: Seq<Seq<Option<Typed>>>,
) -> Seq<Seq<(Seq<char>, Json)>> {
    tagged_records(local_names, local_rows, "local"@) + tagged_records(
        peer_names,
        peer_rows,
        "peers"@,
    )
}

fn push_tagged(
    out: &mut Vec<Vec<Member>>,
    names: &Vec<String>,
    rows: &Vec<Vec<Option<TypedValue>>>,
    source: &str,
)
    ensures
        crate::codec::records_view(final(out)@) == crate::codec::records_view(old(out)@)
            + tagged_records(names.deep_view(), rows_view(rows@), source@),
{
    let ghost before = crate::codec::records_view(out@);
    let ghost tagged = tagged_records(names.deep_view(), rows_view(rows@), source@);
    let mut k: usize = 0;
    assert(crate::codec::records_view(out@) =~= before + tagged.take(0));
    while k < rows.len()
        invariant
            k <= rows.len(),
            tagged == tagged_records(names.deep_view(), rows_view(rows@), source@),
            crate::codec::records_view(out@) == before + tagged.take(k as int),
        decreases rows.len() - k,
    {
        let mut record = row_to_record(names, &rows[k]);
        set_member(&mut record, String::from_str("source"), JsonValue::Text(source.to_owned()));
        let ghost prior = crate::codec::records_view(out@);
        out.push(record);
        proof {
            assert(crate::codec::records_view(out@) =~= prior.push(tagged[k as int]));
            assert(before + tagged.take(k as int + 1) =~= (before + tagged.take(k as int)).push(
                tagged[k as int],
            ));
        }
        k += 1;
    }
    assert(tagged.take(rows.len() as int) =~= tagged);
}

/// Puts the cluster's nodes together from the rows that describe the local
/// node and those that describe its peers, given each result's column names.
pub fn topology_records(
    local_names: &Vec<String>,
    local_rows: &Vec<Vec<Option<TypedValue>>>,
    peer_names: &Vec<String>,
    peer_rows: &Vec<Vec<Option<TypedValue>>>,
) -> (nodes: Vec<Vec<Member>>)
    ensures
        crate::codec::records_view(nodes@) == topology(
            local_names.deep_view(),
            rows_view(local_rows@),
            peer_names.deep_view(),
            rows_view(peer_rows@),
        ),
{
    let mut nodes: Vec<Vec<Member>> = Vec::new();
    assert(crate::codec::records_view(nodes@) =~= Seq::empty());
    push_tagged(&mut nodes, local_names, local_rows, "local");
    push_tagged(&mut nodes, peer_names, peer_rows, "peers");
    proof {
        let local = tagged_records(local_names.deep_view(), rows_view(local_rows@), "local"@);
        assert(Seq::<Seq<(Seq<char>, Json)>>::empty() + local =~= local);
    }
    nodes
}

/// The replication settings that the first row gives: under `replication`
/// the entries of its first cell where that is a map, and under
/// `durable_writes` its second cell where that is a boolean. Nothing where
/// there is no row.
pub open spec fn replication_entries(rows: Seq<Seq<Option<Typed>>>) -> Seq<(Seq<char>, Json)> {
    if rows.len() == 0 {
        Seq::empty()
    } else {
        let row = rows[0];
        let settings: Seq<(Seq<char>, Json)> = if row.len() > 0 {
            match row[0] {
                Some(Typed::MapOf(entries)) => seq![
                    ("replication"@, Json::Object(collect_entries(entry_pairs(entries)))),
                ],
                _ => Seq::empty(),
            }
        } else {
            Seq::empty()
        };
        if row.len() > 1 {
            match row[1] {
                Some(Typed::Boolean(b)) => with_entry(settings, "durable_writes"@, Json::Bool(b)),
                _ => settings,
            }
        } else {
            settings
        }
    }
}

/// Puts a keyspace's replication settings together from the rows read.
pub fn replication_record(rows: &Vec<Vec<Option<TypedValue>>>) -> (record: Vec<Member>)
    ensures
        members_view(record@) == replication_entries(rows_view(rows@)),
{
    let mut record: Vec<Member> = Vec::new();
    assert(members_view(record@) =~= Seq::empty());
    if rows.len() > 0 {
        let row = &rows[0];
        assert(rows_view(rows@)[0] == slots_view(row@));
        if row.len() > 0 {
            match &row[0] {
                Some(TypedValue::MapOf(entries)) => {
                    let members = entries_to_members(entries);
                    record.push(
                        Member {
                            name: String::from_str("replication"),
                            value: JsonValue::Object(members),
                        },
                    );
                    assert(members_view(record@) =~= seq![
                        (
                            "replication"@,
                            Json::Object(
                                collect_entries(entry_pairs(crate::cql::entries_view(entries@))),
                            ),
                        ),
                    ]);
                },
                _ => {},
            }
        }
        if row.len() > 1 {
            match &row[1] {
                Some(TypedValue::Boolean(b)) => {
                    set_member(
                        &mut record,
                        String::from_str("durable_writes"),
                        JsonValue::Bool(*b),
                    );
                },
                _ => {},
            }
        }
    }
    record
}

} // verus!
