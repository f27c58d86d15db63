//! The operations' argument checks: reading a call's arguments, checking them
//! against a table's metadata, and wording what is reported back.
//!
//! A call that cannot be carried out is answered with a sentence that says
//! why, as an ordinary result, so that the caller can correct it.

use crate::db::{column_names, columns_view, ColumnMeta, DescribeTable, TableSchema};
use crate::encoding::{debug_list, debug_list_text};
use crate::json::{
    entry_value, get_member, has_key, members_view, natural_of, values_view, Json, JsonValue,
    Member,
};
use crate::paging::{clamp_limit, clamp_page_size, clamped};
use crate::query::{
    contains_name, entry_names, order_columns, order_view, same_key_set, same_keys,
};
use crate::server::required_arguments;
use crate::text::str_eq;
use vstd::prelude::*;
use vstd::string::*;

verus! {

/// The arguments that an optional object stands for: none where it is absent.
pub open spec fn args_view(args: Option<&Vec<Member>>) -> Seq<(Seq<char>, Json)> {
    match args {
        Some(members) => members_view(members@),
        None => Seq::empty(),
    }
}

/// The text given for an argument, where one is given.
pub open spec fn text_arg(args: Seq<(Seq<char>, Json)>, key: Seq<char>) -> Option<Seq<char>> {
    match entry_value(args, key) {
        Some(Json::Text(s)) => Some(s),
        _ => None,
    }
}

/// The non-negative integer given for an argument, where one is given.
pub open spec fn number_arg(args: Seq<(Seq<char>, Json)>, key: Seq<char>) -> Option<nat> {
    match entry_value(args, key) {
        Some(value) => natural_of(value),
        None => None,
    }
}

/// The object given for an argument, where one is given.
pub open spec fn object_arg(args: Seq<(Seq<char>, Json)>, key: Seq<char>) -> Option<
    Seq<(Seq<char>, Json)>,
> {
    match entry_value(args, key) {
        Some(Json::Object(entries)) => Some(entries),
        _ => None,
    }
}

/// The array given for an argument, where one is given.
pub open spec fn array_arg(args: Seq<(Seq<char>, Json)>, key: Seq<char>) -> Option<Seq<Json>> {
    match entry_value(args, key) {
        Some(Json::Array(items)) => Some(items),
        _ => None,
    }
}

/// The array given for the ordering, under `order_by` or, where there is no
/// such argument, under `orderBy`.
pub open spec fn ordering_arg(args: Seq<(Seq<char>, Json)>) -> Option<Seq<Json>> {
    match entry_value(args, "order_by"@) {
        Some(_) => array_arg(args, "order_by"@),
        None => array_arg(args, "orderBy"@),
    }
}

/// The texts among the items, in order; items that are no text are passed
/// over.
pub open spec fn text_items(items: Seq<Json>) -> Seq<Seq<char>>
    decreases items.len(),
{
    if items.len() == 0 {
        Seq::empty()
    } else {
        let rest = text_items(items.drop_last());
        match items.last() {
            Json::Text(s) => rest.push(s),
            _ => rest,
        }
    }
}

/// The direction that an ordering item names: `asc` where it names none.
pub open spec fn direction_of(entries: Seq<(Seq<char>, Json)>) -> Seq<char> {
    match text_arg(entries, "direction"@) {
        Some(d) => d,
        None => "asc"@,
    }
}

/// The ordering terms among the items, in order; an item that is no object,
/// or names no column, is passed over.
pub open spec fn ordering_items(items: Seq<Json>) -> Seq<(Seq<char>, Seq<char>)>
    decreases items.len(),
{
    if items.len() == 0 {
        Seq::empty()
    } else {
        let rest = ordering_items(items.drop_last());
        match items.last() {
            Json::Object(entries) => match text_arg(entries, "column"@) {
                Some(column) => rest.push((column, direction_of(entries))),
                None => rest,
            },
            _ => rest,
        }
    }
}

/// Reads a text argument.
pub fn arg_str(args: Option<&Vec<Member>>, key: &str) -> (text: Option<String>)
    ensures
        match text {
            Some(s) => text_arg(args_view(args), key@) == Some(s@),
            None => text_arg(args_view(args), key@) is None,
        },
{
    match args {
        Some(members) => match get_member(members, key) {
            Some(value) => match value.as_str() {
                Some(s) => Some(s.to_owned()),
                None => None,
            },
            None => None,
        },
        None => {
            assert(entry_value(args_view(args), key@) is None);
            None
        },
    }
}

/// Reads a non-negative integer argument.
pub fn arg_u64(args: Option<&Vec<Member>>, key: &str) -> (number: Option<u64>)
    ensures
        match number {
            Some(n) => number_arg(args_view(args), key@) == Some(n as nat),
            None => number_arg(args_view(args), key@) is None,
        },
{
    match args {
        Some(members) => match get_member(members, key) {
            Some(value) => value.as_u64(),
            None => None,
        },
        None => {
            assert(entry_value(args_view(args), key@) is None);
            None
        },
    }
}

/// Reads an object argument.
pub fn arg_object<'a>(args: Option<&'a Vec<Member>>, key: &str) -> (object: Option<
    &'a Vec<Member>,
>)
    ensures
        match object {
            Some(members) => object_arg(args_view(args), key@) == Some(members_view(members@)),
            None => object_arg(args_view(args), key@) is None,
        },
{
    match args {
        Some(members) => match get_member(members, key) {
            Some(value) => value.as_object(),
            None => None,
        },
        None => {
            assert(entry_value(args_view(args), key@) is None);
            None
        },
    }
}

/// Reads an array argument.
pub fn arg_array<'a>(args: Option<&'a Vec<Member>>, key: &str) -> (array: Option<
    &'a Vec<JsonValue>,
>)
    ensures
        match array {
            Some(items) => array_arg(args_view(args), key@) == Some(values_view(items@)),
            None => array_arg(args_view(args), key@) is None,
        },
{
    match args {
        Some(members) => match get_member(members, key) {
            Some(value) => value.as_array(),
            None => None,
        },
        None => {
            assert(entry_value(args_view(args), key@) is None);
            None
        },
    }
}

/// Reads the ordering argument.
pub fn arg_ordering<'a>(args: Option<&'a Vec<Member>>) -> (array: Option<&'a Vec<JsonValue>>)
    ensures
        match array {
            Some(items) => ordering_arg(args_view(args)) == Some(values_view(items@)),
            None => ordering_arg(args_view(args)) is None,
        },
{
    match args {
        Some(members) => match get_member(members, "order_by") {
            Some(value) => value.as_array(),
            None => arg_array(args, "orderBy"),
        },
        None => {
            assert(entry_value(args_view(args), "order_by"@) is None);
            assert(entry_value(args_view(args), "orderBy"@) is None);
            None
        },
    }
}

/// Picks the texts out of a list of items.
pub fn texts_of(items: &Vec<JsonValue>) -> (texts: Vec<String>)
    ensures
        texts.deep_view() == text_items(values_view(items@)),
{
    let ghost all = values_view(items@);
    let mut texts: Vec<String> = Vec::new();
    let mut i: usize = 0;
    assert(all.take(0) =~= Seq::empty());
    assert(texts.deep_view() =~= text_items(all.take(0)));
    while i < items.len()
        invariant
            i <= items.len(),
            all == values_view(items@),
            texts.deep_view() == text_items(all.take(i as int)),
        decreases items.len() - i,
    {
        proof {
            let next = all.take(i as int + 1);
            assert(next.drop_last() =~= all.take(i as int));
            assert(next.last() == items@[i as int]@);
        }
        let ghost before = texts.deep_view();
        match items[i].as_str() {
            Some(s) => {
                texts.push(s.to_owned());
                assert(texts.deep_view() =~= before.push(s@));
            },
            None => {},
        }
        i += 1;
    }
    assert(all.take(items.len() as int) =~= all);
    texts
}

/// Picks the ordering terms out of a list of items.
pub fn ordering_of(items: &Vec<JsonValue>) -> (terms: Vec<(String, String)>)
    ensures
        order_view(terms@) == ordering_items(values_view(items@)),
{
    let ghost all = values_view(items@);
    let mut terms: Vec<(String, String)> = Vec::new();
    let mut i: usize = 0;
    assert(all.take(0) =~= Seq::empty());
    assert(order_view(terms@) =~= ordering_items(all.take(0)));
    while i < items.len()
        invariant
            i <= items.len(),
            all == values_view(items@),
            order_view(terms@) == ordering_items(all.take(i as int)),
        decreases items.len() - i,
    {
        proof {
            let next = all.take(i as int + 1);
            assert(next.drop_last() =~= all.take(i as int));
            assert(next.last() == items@[i as int]@);
        }
        let ghost before = order_view(terms@);
        match items[i].as_object() {
            Some(entries) => {
                match arg_str(Some(entries), "column") {
                    Some(column) => {
                        let direction = match arg_str(Some(entries), "direction") {
                            Some(d) => d,
                            None => String::from_str("asc"),
                        };
                        let ghost term = (column@, direction@);
                        terms.push((column, direction));
                        assert(order_view(terms@) =~= before.push(term));
                    },
                    None => {},
                }
            },
            None => {},
        }
        i += 1;
    }
    assert(all.take(items.len() as int) =~= all);
    terms
}

/// A call of an operation, with its arguments read and its limits brought
/// into range.
#[derive(Debug, PartialEq)]
pub enum ToolCall<'a> {
    ListKeyspaces,
    ListTables { keyspace: String },
    DescribeTable { keyspace: String, table: String },
    SampleRows { keyspace: String, table: String, limit: u32, filters: Option<&'a Vec<Member>> },
    Select {
        keyspace: String,
        table: String,
        columns: Vec<String>,
        limit: u32,
        filters: Option<&'a Vec<Member>>,
        order_by: Option<Vec<(String, String)>>,
    },
    PagedSelect {
        keyspace: String,
        table: String,
        columns: Vec<String>,
        page_size: i32,
        filters: Option<&'a Vec<Member>>,
        order_by: Option<Vec<(String, String)>>,
        cursor: Option<String>,
    },
    PartitionRows { keyspace: String, table: String, partition: &'a Vec<Member>, limit: u32 },
    ClusterTopology,
    ListIndexes { keyspace: String, table: String },
    KeyspaceReplication { keyspace: String },
    ListViews { keyspace: String },
    ListUdts { keyspace: String },
    ListFunctions { keyspace: String },
    ListAggregates { keyspace: String },
    SizeEstimates { keyspace: String, table: String },
    SearchSchema { pattern: String, keyspace: Option<String> },
}

/// The mathematical value of a [`ToolCall`].
pub enum Call {
    ListKeyspaces,
    ListTables { keyspace: Seq<char> },
    DescribeTable { keyspace: Seq<char>, table: Seq<char> },
    SampleRows {
        keyspace: Seq<char>,
        table: Seq<char>,
        limit: nat,
        filters: Option<Seq<(Seq<char>, Json)>>,
    },
    Select {
        keyspace: Seq<char>,
        table: Seq<char>,
        columns: Seq<Seq<char>>,
        limit: nat,
        filters: Option<Seq<(Seq<char>, Json)>>,
        order_by: Option<Seq<(Seq<char>, Seq<char>)>>,
    },
    PagedSelect {
        keyspace: Seq<char>,
        table: Seq<char>,
        columns: Seq<Seq<char>>,
        page_size: nat,
        filters: Option<Seq<(Seq<char>, Json)>>,
        order_by: Option<Seq<(Seq<char>, Seq<char>)>>,
        cursor: Option<Seq<char>>,
    },
    PartitionRows {
        keyspace: Seq<char>,
        table: Seq<char>,
        partition: Seq<(Seq<char>, Json)>,
        limit: nat,
    },
    ClusterTopology,
    ListIndexes { keyspace: Seq<char>, table: Seq<char> },
    KeyspaceReplication { keyspace: Seq<char> },
    ListViews { keyspace: Seq<char> },
    ListUdts { keyspace: Seq<char> },
    ListFunctions { keyspace: Seq<char> },
    ListAggregates { keyspace: Seq<char> },
    SizeEstimates { keyspace: Seq<char>, table: Seq<char> },
    SearchSchema { pattern: Seq<char>, keyspace: Option<Seq<char>> },
}

/// The entries of an optional object.
pub open spec fn opt_entries(members: Option<&Vec<Member>>) -> Option<Seq<(Seq<char>, Json)>> {
    match members {
        Some(ms) => Some(members_view(ms@)),
        None => None,
    }
}

/// The terms of an optional ordering.
pub open spec fn opt_ordering(order_by: Option<Vec<(String, String)>>) -> Option<
    Seq<(Seq<char>, Seq<char>)>,
> {
    match order_by {
        Some(terms) => Some(order_view(terms@)),
        None => None,
    }
}

impl<'a> View for ToolCall<'a> {
    type V = Call;

    open spec fn view(&self) -> Call {
        match self {
            ToolCall::ListKeyspaces => Call::ListKeyspaces,
            ToolCall::ListTables { keyspace } => Call::ListTables { keyspace: keyspace@ },
            ToolCall::DescribeTable { keyspace, table } => Call::DescribeTable {
                keyspace: keyspace@,
                table: table@,
            },
            ToolCall::SampleRows { keyspace, table, limit, filters } => Call::SampleRows {
                keyspace: keyspace@,
                table: table@,
                limit: *limit as nat,
                filters: opt_entries(*filters),
            },
            ToolCall::Select { keyspace, table, columns, limit, filters, order_by } => Call::Select {
                keyspace: keyspace@,
                table: table@,
                columns: columns.deep_view(),
                limit: *limit as nat,
                filters: opt_entries(*filters),
                order_by: opt_ordering(*order_by),
            },
            ToolCall::PagedSelect {
                keyspace,
                table,
                columns,
                page_size,
                filters,
                order_by,
                cursor,
            } => Call::PagedSelect {
                keyspace: keyspace@,
                table: table@,
                columns: columns.deep_view(),
                page_size: *page_size as nat,
                filters: opt_entries(*filters),
                order_by: opt_ordering(*order_by),
                cursor: crate::db::opt_text(*cursor),
            },
            ToolCall::PartitionRows { keyspace, table, partition, limit } => Call::PartitionRows {
                keyspace: keyspace@,
                table: table@,
                partition: members_view(partition@),
                limit: *limit as nat,
            },
            ToolCall::ClusterTopology => Call::ClusterTopology,
            ToolCall::ListIndexes { keyspace, table } => Call::ListIndexes {
                keyspace: keyspace@,
                table: table@,
            },
            ToolCall::KeyspaceReplication { keyspace } => Call::KeyspaceReplication {
                keyspace: keyspace@,
            },
            ToolCall::ListViews { keyspace } => Call::ListViews { keyspace: keyspace@ },
            ToolCall::ListUdts { keyspace } => Call::ListUdts { keyspace: keyspace@ },
            ToolCall::ListFunctions { keyspace } => Call::ListFunctions { keyspace: keyspace@ },
            ToolCall::ListAggregates { keyspace } => Call::ListAggregates { keyspace: keyspace@ },
            ToolCall::SizeEstimates { keyspace, table } => Call::SizeEstimates {
                keyspace: keyspace@,
                table: table@,
            },
            ToolCall::SearchSchema { pattern, keyspace } => Call::SearchSchema {
                pattern: pattern@,
                keyspace: crate::db::opt_text(*keyspace),
            },
        }
    }
}

/// The mathematical value of an attempt to read a call.
pub open spec fn call_result_view(result: Result<ToolCall<'_>, String>) -> Result<Call, Seq<char>> {
    match result {
        Ok(call) => Ok(call@),
        Err(complaint) => Err(complaint@),
    }
}

/// The ordering terms that the arguments give, where they give an array for
/// the ordering.
pub open spec fn ordering_terms(args: Seq<(Seq<char>, Json)>) -> Option<
    Seq<(Seq<char>, Seq<char>)>,
> {
    match ordering_arg(args) {
        Some(items) => Some(ordering_items(items)),
        None => None,
    }
}

/// What is said of an operation that is not on offer.
pub open spec fn unknown_tool_text(name: Seq<char>) -> Seq<char> {
    "tool '"@ + name + "' is not yet implemented (read-only phase)"@
}

/// A call of an operation that takes a keyspace, or the complaint that the
/// keyspace is missing.
pub open spec fn keyspace_call(args: Seq<(Seq<char>, Json)>, make: spec_fn(Seq<char>) -> Call) -> Result<
    Call,
    Seq<char>,
> {
    match text_arg(args, "keyspace"@) {
        Some(keyspace) => Ok(make(keyspace)),
        None => Err("missing required argument 'keyspace'"@),
    }
}

/// A call of an operation that takes a keyspace and a table, or the
/// complaint that one of them is missing.
pub open spec fn table_call(
    args: Seq<(Seq<char>, Json)>,
    make: spec_fn(Seq<char>, Seq<char>) -> Call,
) -> Result<Call, Seq<char>> {
    match (text_arg(args, "keyspace"@), text_arg(args, "table"@)) {
        (Some(keyspace), Some(table)) => Ok(make(keyspace, table)),
        _ => Err("missing required arguments 'keyspace' and/or 'table'"@),
    }
}

/// The call that a name and arguments stand for, or the complaint with which
/// it is turned down: an argument that the operation requires is missing or
/// of the wrong kind, or no operation has that name. Limits and page sizes
/// are brought into the accepted range.
pub open spec fn parsed(name: Seq<char>, args: Seq<(Seq<char>, Json)>) -> Result<Call, Seq<char>> {
    if name == "list_keyspaces"@ {
        Ok(Call::ListKeyspaces)
    } else if name == "list_tables"@ {
        keyspace_call(args, |keyspace: Seq<char>| Call::ListTables { keyspace })
    } else if name == "describe_table"@ {
        table_call(
            args,
            |keyspace: Seq<char>, table: Seq<char>| Call::DescribeTable { keyspace, table },
        )
    } else if name == "sample_rows"@ {
        match (text_arg(args, "keyspace"@), text_arg(args, "table"@), number_arg(args, "limit"@)) {
            (Some(keyspace), Some(table), Some(limit)) => Ok(
                Call::SampleRows {
                    keyspace,
                    table,
                    limit: clamped(limit),
                    filters: object_arg(args, "filters"@),
                },
            ),
            _ => Err("missing required arguments 'keyspace', 'table', or 'limit'"@),
        }
    } else if name == "select"@ {
        match (
            text_arg(args, "keyspace"@),
            text_arg(args, "table"@),
            array_arg(args, "columns"@),
            number_arg(args, "limit"@),
        ) {
            (Some(keyspace), Some(table), Some(columns), Some(limit)) => Ok(
                Call::Select {
                    keyspace,
                    table,
                    columns: text_items(columns),
                    limit: clamped(limit),
                    filters: object_arg(args, "filters"@),
                    order_by: ordering_terms(args),
                },
            ),
            _ => Err("missing required arguments 'keyspace', 'table', 'columns', or 'limit'"@),
        }
    } else if name == "paged_select"@ {
        match (
            text_arg(args, "keyspace"@),
            text_arg(args, "table"@),
            array_arg(args, "columns"@),
            number_arg(args, "page_size"@),
        ) {
            (Some(keyspace), Some(table), Some(columns), Some(page_size)) => Ok(
                Call::PagedSelect {
                    keyspace,
                    table,
                    columns: text_items(columns),
                    page_size: clamped(page_size),
                    filters: object_arg(args, "filters"@),
                    order_by: ordering_terms(args),
                    cursor: text_arg(args, "cursor"@),
                },
            ),
            _ => Err(
                "missing required arguments 'keyspace', 'table', 'columns', or 'page_size'"@,
            ),
        }
    } else if name == "partition_rows"@ {
        match (
            text_arg(args, "keyspace"@),
            text_arg(args, "table"@),
            object_arg(args, "partition"@),
            number_arg(args, "limit"@),
        ) {
            (Some(keyspace), Some(table), Some(partition), Some(limit)) => Ok(
                Call::PartitionRows { keyspace, table, partition, limit: clamped(limit) },
            ),
            _ => Err("missing required arguments 'keyspace','table','partition','limit'"@),
        }
    } else if name == "cluster_topology"@ {
        Ok(Call::ClusterTopology)
    } else if name == "list_indexes"@ {
        table_call(
            args,
            |keyspace: Seq<char>, table: Seq<char>| Call::ListIndexes { keyspace, table },
        )
    } else if name == "keyspace_replication"@ {
        keyspace_call(args, |keyspace: Seq<char>| Call::KeyspaceReplication { keyspace })
    } else if name == "list_views"@ {
        keyspace_call(args, |keyspace: Seq<char>| Call::ListViews { keyspace })
    } else if name == "list_udts"@ {
        keyspace_call(args, |keyspace: Seq<char>| Call::ListUdts { keyspace })
    } else if name == "list_functions"@ {
        keyspace_call(args, |keyspace: Seq<char>| Call::ListFunctions { keyspace })
    } else if name == "list_aggregates"@ {
        keyspace_call(args, |keyspace: Seq<char>| Call::ListAggregates { keyspace })
    } else if name == "size_estimates"@ {
        table_call(
            args,
            |keyspace: Seq<char>, table: Seq<char>| Call::SizeEstimates { keyspace, table },
        )
    } else if name == "search_schema"@ {
        match text_arg(args, "pattern"@) {
            Some(pattern) => Ok(
                Call::SearchSchema { pattern, keyspace: text_arg(args, "keyspace"@) },
            ),
            None => Err("missing required argument 'pattern'"@),
        }
    } else {
        Err(unknown_tool_text(name))
    }
}

fn read_ordering(args: Option<&Vec<Member>>) -> (order_by: Option<Vec<(String, String)>>)
    ensures
        opt_ordering(order_by) == ordering_terms(args_view(args)),
{
    match arg_ordering(args) {
        Some(items) => Some(ordering_of(items)),
        None => None,
    }
}

fn missing_keyspace() -> (complaint: String)
    ensures
        complaint@ == "missing required argument 'keyspace'"@,
{
    String::from_str("missing required argument 'keyspace'")
}

fn missing_table() -> (complaint: String)
    ensures
        complaint@ == "missing required arguments 'keyspace' and/or 'table'"@,
{
    String::from_str("missing required arguments 'keyspace' and/or 'table'")
}

/// Reads a call: finds the operation by its name and reads its arguments.
pub fn parse_tool_call<'a>(name: &str, args: Option<&'a Vec<Member>>) -> (result: Result<
    ToolCall<'a>,
    String,
>)
    ensures
        call_result_view(result) == parsed(name@, args_view(args)),
{
    if str_eq(name, "list_keyspaces") {
        Ok(ToolCall::ListKeyspaces)
    } else if str_eq(name, "list_tables") {
        match arg_str(args, "keyspace") {
            Some(keyspace) => Ok(ToolCall::ListTables { keyspace }),
            None => Err(missing_keyspace()),
        }
    } else if str_eq(name, "describe_table") {
        match (arg_str(args, "keyspace"), arg_str(args, "table")) {
            (Some(keyspace), Some(table)) => Ok(ToolCall::DescribeTable { keyspace, table }),
            _ => Err(missing_table()),
        }
    } else if str_eq(name, "sample_rows") {
        match (arg_str(args, "keyspace"), arg_str(args, "table"), arg_u64(args, "limit")) {
            (Some(keyspace), Some(table), Some(limit)) => Ok(
                ToolCall::SampleRows {
                    keyspace,
                    table,
                    limit: clamp_limit(limit),
                    filters: arg_object(args, "filters"),
                },
            ),
            _ => Err(
                String::from_str("missing required arguments 'keyspace', 'table', or 'limit'"),
            ),
        }
    } else if str_eq(name, "select") {
        match (
            arg_str(args, "keyspace"),
            arg_str(args, "table"),
            arg_array(args, "columns"),
            arg_u64(args, "limit"),
        ) {
            (Some(keyspace), Some(table), Some(columns), Some(limit)) => Ok(
                ToolCall::Select {
                    keyspace,
                    table,
                    columns: texts_of(columns),
                    limit: clamp_limit(limit),
                    filters: arg_object(args, "filters"),
                    order_by: read_ordering(args),
                },
            ),
            _ => Err(
                String::from_str(
                    "missing required arguments 'keyspace', 'table', 'columns', or 'limit'",
                ),
            ),
        }
    } else if str_eq(name, "paged_select") {
        match (
            arg_str(args, "keyspace"),
            arg_str(args, "table"),
            arg_array(args, "columns"),
            arg_u64(args, "page_size"),
        ) {
            (Some(keyspace), Some(table), Some(columns), Some(page_size)) => Ok(
                ToolCall::PagedSelect {
                    keyspace,
                    table,
                    columns: texts_of(columns),
                    page_size: clamp_page_size(page_size),
                    filters: arg_object(args, "filters"),
                    order_by: read_ordering(args),
                    cursor: arg_str(args, "cursor"),
                },
            ),
            _ => Err(
                String::from_str(
                    "missing required arguments 'keyspace', 'table', 'columns', or 'page_size'",
                ),
            ),
        }
    } else if str_eq(name, "partition_rows") {
        match (
            arg_str(args, "keyspace"),
            arg_str(args, "table"),
            arg_object(args, "partition"),
            arg_u64(args, "limit"),
        ) {
            (Some(keyspace), Some(table), Some(partition), Some(limit)) => Ok(
                ToolCall::PartitionRows { keyspace, table, partition, limit: clamp_limit(limit) },
            ),
            _ => Err(
                String::from_str(
                    "missing required arguments 'keyspace','table','partition','limit'",
                ),
            ),
        }
    } else if str_eq(name, "cluster_topology") {
        Ok(ToolCall::ClusterTopology)
    } else if str_eq(name, "list_indexes") {
        match (arg_str(args, "keyspace"), arg_str(args, "table")) {
            (Some(keyspace), Some(table)) => Ok(ToolCall::ListIndexes { keyspace, table }),
            _ => Err(missing_table()),
        }
    } else if str_eq(name, "keyspace_replication") {
        match arg_str(args, "keyspace") {
            Some(keyspace) => Ok(ToolCall::KeyspaceReplication { keyspace }),
            None => Err(missing_keyspace()),
        }
    } else if str_eq(name, "list_views") {
        match arg_str(args, "keyspace") {
            Some(keyspace) => Ok(ToolCall::ListViews { keyspace }),
            None => Err(missing_keyspace()),
        }
    } else if str_eq(name, "list_udts") {
        match arg_str(args, "keyspace") {
            Some(keyspace) => Ok(ToolCall::ListUdts { keyspace }),
            None => Err(missing_keyspace()),
        }
    } else if str_eq(name, "list_functions") {
        match arg_str(args, "keyspace") {
            Some(keyspace) => Ok(ToolCall::ListFunctions { keyspace }),
            None => Err(missing_keyspace()),
        }
    } else if str_eq(name, "list_aggregates") {
        match arg_str(args, "keyspace") {
            Some(keyspace) => Ok(ToolCall::ListAggregates { keyspace }),
            None => Err(missing_keyspace()),
        }
    } else if str_eq(name, "size_estimates") {
        match (arg_str(args, "keyspace"), arg_str(args, "table")) {
            (Some(keyspace), Some(table)) => Ok(ToolCall::SizeEstimates { keyspace, table }),
            _ => Err(missing_table()),
        }
    } else if str_eq(name, "search_schema") {
        match arg_str(args, "pattern") {
            Some(pattern) => Ok(
                ToolCall::SearchSchema { pattern, keyspace: arg_str(args, "keyspace") },
            ),
            None => Err(String::from_str("missing required argument 'pattern'")),
        }
    } else {
        let mut complaint = String::from_str("tool '");
        complaint.append(name);
        complaint.append("' is not yet implemented (read-only phase)");
        Err(complaint)
    }
}

/// The first of the names that is not among the known ones, if there is one.
pub open spec fn first_missing(names: Seq<Seq<char>>, known: Seq<Seq<char>>) -> Option<Seq<char>>
    decreases names.len(),
{
    if names.len() == 0 {
        None
    } else if !known.contains(names[0]) {
        Some(names[0])
    } else {
        first_missing(names.drop_first(), known)
    }
}

/// The names of the filters, where there are filters.
pub open spec fn filter_names(filters: Option<Seq<(Seq<char>, Json)>>) -> Seq<Seq<char>> {
    match filters {
        Some(entries) => entry_names(entries),
        None => Seq::empty(),
    }
}

/// The columns of the ordering, where there is one.
pub open spec fn ordering_names(order_by: Option<Seq<(Seq<char>, Seq<char>)>>) -> Seq<Seq<char>> {
    match order_by {
        Some(terms) => order_columns(terms),
        None => Seq::empty(),
    }
}

/// What is said of a partition argument whose keys are not the table's.
pub open spec fn mismatch_text(partition_keys: Seq<Seq<char>>) -> Seq<char> {
    "partition keys mismatch: expected "@ + debug_list_text(partition_keys)
}

/// What is said of an ordering column of a `select` that is no clustering
/// key: the column, and the clustering keys that are allowed.
pub open spec fn ordering_text(column: Seq<char>, clustering_keys: Seq<Seq<char>>) -> Seq<char> {
    "invalid order_by column '"@ + column + "'; only clustering keys are allowed: "@
        + debug_list_text(clustering_keys)
}

/// The complaint about a call, given the table's metadata, if there is one.
/// A projected column and a filter's column must be columns of the table,
/// an ordering column must be a clustering key, and the keys of a partition
/// argument must be exactly the partition keys. The first check that fails,
/// in this order, words the complaint.
pub open spec fn complaint(call: Call, schema: TableSchema) -> Option<Seq<char>> {
    let known = column_names(schema.columns);
    match call {
        Call::SampleRows { filters, .. } => match first_missing(filter_names(filters), known) {
            Some(c) => Some("invalid filter column '"@ + c + "'; not in table columns"@),
            None => None,
        },
        Call::Select { columns, filters, order_by, .. } => match first_missing(columns, known) {
            Some(c) => Some("invalid column '"@ + c + "' in select; not in table columns"@),
            None => match first_missing(filter_names(filters), known) {
                Some(c) => Some("invalid filter column '"@ + c + "'; not in table columns"@),
                None => match first_missing(ordering_names(order_by), schema.clustering_keys) {
                    Some(c) => Some(ordering_text(c, schema.clustering_keys)),
                    None => None,
                },
            },
        },
        Call::PagedSelect { columns, filters, order_by, .. } => match first_missing(
            columns,
            known,
        ) {
            Some(c) => Some("invalid column '"@ + c + "'"@),
            None => match first_missing(filter_names(filters), known) {
                Some(c) => Some("invalid filter column '"@ + c + "'"@),
                None => match first_missing(ordering_names(order_by), schema.clustering_keys) {
                    Some(c) => Some("invalid order_by column '"@ + c + "'"@),
                    None => None,
                },
            },
        },
        Call::PartitionRows { partition, .. } => if same_key_set(
            schema.partition_keys,
            entry_names(partition),
        ) {
            None
        } else {
            Some(mismatch_text(schema.partition_keys))
        },
        _ => None,
    }
}

/// Whether a call is checked against the table's metadata before it is
/// carried out. A sample without filters is not.
pub open spec fn needs_schema(call: Call) -> bool {
    match call {
        Call::DescribeTable { .. } => true,
        Call::SampleRows { filters, .. } => filters is Some,
        Call::Select { .. } => true,
        Call::PagedSelect { .. } => true,
        Call::PartitionRows { .. } => true,
        _ => false,
    }
}

/// The name of the operation that a call is of.
pub open spec fn tool_name(call: Call) -> Seq<char> {
    match call {
        Call::ListKeyspaces => "list_keyspaces"@,
        Call::ListTables { .. } => "list_tables"@,
        Call::DescribeTable { .. } => "describe_table"@,
        Call::SampleRows { .. } => "sample_rows"@,
        Call::Select { .. } => "select"@,
        Call::PagedSelect { .. } => "paged_select"@,
        Call::PartitionRows { .. } => "partition_rows"@,
        Call::ClusterTopology => "cluster_topology"@,
        Call::ListIndexes { .. } => "list_indexes"@,
        Call::KeyspaceReplication { .. } => "keyspace_replication"@,
        Call::ListViews { .. } => "list_views"@,
        Call::ListUdts { .. } => "list_udts"@,
        Call::ListFunctions { .. } => "list_functions"@,
        Call::ListAggregates { .. } => "list_aggregates"@,
        Call::SizeEstimates { .. } => "size_estimates"@,
        Call::SearchSchema { .. } => "search_schema"@,
    }
}

/// What is said when carrying out a call has failed: the operation's name,
/// then the reason as it was given.
pub open spec fn failure_text(call: Call, reason: Seq<char>) -> Seq<char> {
    tool_name(call) + " failed: "@ + reason
}

/// What is said when the table's metadata could not be had: the failure of
/// the operation, for the reason given where the operation is the
/// description of the table itself, else for the reason that the schema
/// fetch failed.
pub open spec fn schema_failure_text(call: Call, reason: Seq<char>) -> Seq<char> {
    if call is DescribeTable {
        failure_text(call, reason)
    } else {
        failure_text(call, "schema fetch failed: "@ + reason)
    }
}

/// What is done next for a call.
#[derive(Debug, Clone, PartialEq)]
pub enum CallAction {
    /// Look up the table's metadata, then ask again with the outcome.
    FetchSchema,
    /// Carry the call out.
    Execute,
    /// Answer with the table's metadata.
    DeliverSchema,
    /// Answer with this text.
    Reply(String),
}

/// The mathematical value of a [`CallAction`].
pub enum Action {
    FetchSchema,
    Execute,
    DeliverSchema,
    Reply(Seq<char>),
}

impl View for CallAction {
    type V = Action;

    open spec fn view(&self) -> Action {
        match self {
            CallAction::FetchSchema => Action::FetchSchema,
            CallAction::Execute => Action::Execute,
            CallAction::DeliverSchema => Action::DeliverSchema,
            CallAction::Reply(text) => Action::Reply(text@),
        }
    }
}

/// What is done first for a call: its table's metadata is looked up if the
/// call is checked against it, else the call is carried out.
pub open spec fn opening(call: Call) -> Action {
    if needs_schema(call) {
        Action::FetchSchema
    } else {
        Action::Execute
    }
}

/// What is done once the lookup of the table's metadata has ended: a failed
/// lookup is reported; a description is answered with the metadata; any
/// other call is carried out unless there is a complaint about it.
pub open spec fn sequel(call: Call, outcome: Result<TableSchema, Seq<char>>) -> Action {
    match outcome {
        Err(reason) => Action::Reply(schema_failure_text(call, reason)),
        Ok(schema) => if call is DescribeTable {
            Action::DeliverSchema
        } else {
            match complaint(call, schema) {
                Some(text) => Action::Reply(text),
                None => Action::Execute,
            }
        },
    }
}

/// A name that is not known makes the rest of the names irrelevant; one that
/// is known leaves the verdict to the rest.
proof fn lemma_first_missing_skip(names: Seq<Seq<char>>, known: Seq<Seq<char>>, i: int)
    requires
        0 <= i < names.len(),
        first_missing(names, known) == first_missing(names.skip(i), known),
    ensures
        !known.contains(names[i]) ==> first_missing(names, known) == Some(names[i]),
        known.contains(names[i]) ==> first_missing(names, known) == first_missing(
            names.skip(i + 1),
            known,
        ),
{
    let rest = names.skip(i);
    assert(rest[0] == names[i]);
    assert(rest.drop_first() =~= names.skip(i + 1));
}

/// Finds the first of the names that is not among the known ones.
pub fn find_missing(names: &Vec<String>, known: &Vec<String>) -> (missing: Option<String>)
    ensures
        crate::db::opt_text(missing) == first_missing(names.deep_view(), known.deep_view()),
{
    let ghost all = names.deep_view();
    let mut i: usize = 0;
    assert(all.skip(0) =~= all);
    while i < names.len()
        invariant
            i <= names.len(),
            all == names.deep_view(),
            first_missing(all, known.deep_view()) == first_missing(
                all.skip(i as int),
                known.deep_view(),
            ),
        decreases names.len() - i,
    {
        proof {
            lemma_first_missing_skip(all, known.deep_view(), i as int);
        }
        if !contains_name(known, names[i].as_str()) {
            return Some(names[i].clone());
        }
        i += 1;
    }
    assert(all.skip(names.len() as int) =~= Seq::empty());
    None
}

/// Lists the names of the columns.
pub fn column_name_list(columns: &Vec<ColumnMeta>) -> (names: Vec<String>)
    ensures
        names.deep_view() == column_names(columns_view(columns@)),
{
    let mut names: Vec<String> = Vec::new();
    let mut i: usize = 0;
    while i < columns.len()
        invariant
            i <= columns.len(),
            names@.len() == i,
            forall|j: int| 0 <= j < i ==> (#[trigger] names@[j])@ == columns@[j].column_name@,
        decreases columns.len() - i,
    {
        names.push(columns[i].column_name.clone());
        i += 1;
    }
    assert(names.deep_view() =~= column_names(columns_view(columns@)));
    names
}

fn filter_name_list(filters: Option<&Vec<Member>>) -> (names: Vec<String>)
    ensures
        names.deep_view() == filter_names(opt_entries(filters)),
{
    let mut names: Vec<String> = Vec::new();
    match filters {
        Some(members) => {
            let mut i: usize = 0;
            while i < members.len()
                invariant
                    i <= members.len(),
                    names@.len() == i,
                    forall|j: int| 0 <= j < i ==> (#[trigger] names@[j])@ == members@[j].name@,
                decreases members.len() - i,
            {
                names.push(members[i].name.clone());
                i += 1;
            }
            assert(names.deep_view() =~= entry_names(members_view(members@)));
        },
        None => {
            assert(names.deep_view() =~= Seq::<Seq<char>>::empty());
        },
    }
    names
}

fn ordering_name_list(order_by: &Option<Vec<(String, String)>>) -> (names: Vec<String>)
    ensures
        names.deep_view() == ordering_names(opt_ordering(*order_by)),
{
    let mut names: Vec<String> = Vec::new();
    match order_by {
        Some(terms) => {
            let mut i: usize = 0;
            while i < terms.len()
                invariant
                    i <= terms.len(),
                    names@.len() == i,
                    forall|j: int| 0 <= j < i ==> (#[trigger] names@[j])@ == terms@[j].0@,
                decreases terms.len() - i,
            {
                names.push(terms[i].0.clone());
                i += 1;
            }
            assert(names.deep_view() =~= order_columns(order_view(terms@)));
        },
        None => {
            assert(names.deep_view() =~= Seq::<Seq<char>>::empty());
        },
    }
    names
}

fn quote(before: &str, name: &str, after: &str) -> (text: String)
    ensures
        text@ == before@ + name@ + after@,
{
    let mut text = String::from_str(before);
    text.append(name);
    text.append(after);
    text
}

/// Checks a call against the table's metadata and words the complaint, if
/// there is one.
pub fn check_call(call: &ToolCall, schema: &DescribeTable) -> (found: Option<String>)
    ensures
        crate::db::opt_text(found) == complaint(call@, schema@),
{
    match call {
        ToolCall::SampleRows { filters, .. } => {
            let known = column_name_list(&schema.columns);
            match find_missing(&filter_name_list(*filters), &known) {
                Some(c) => Some(
                    quote("invalid filter column '", c.as_str(), "'; not in table columns"),
                ),
                None => None,
            }
        },
        ToolCall::Select { columns, filters, order_by, .. } => {
            let known = column_name_list(&schema.columns);
            match find_missing(columns, &known) {
                Some(c) => Some(
                    quote("invalid column '", c.as_str(), "' in select; not in table columns"),
                ),
                None => match find_missing(&filter_name_list(*filters), &known) {
                    Some(c) => Some(
                        quote("invalid filter column '", c.as_str(), "'; not in table columns"),
                    ),
                    None => match find_missing(
                        &ordering_name_list(order_by),
                        &schema.clustering_keys,
                    ) {
                        Some(c) => {
                            let mut text = quote(
                                "invalid order_by column '",
                                c.as_str(),
                                "'; only clustering keys are allowed: ",
                            );
                            let list = debug_list(&schema.clustering_keys);
                            text.append(list.as_str());
                            Some(text)
                        },
                        None => None,
                    },
                },
            }
        },
        ToolCall::PagedSelect { columns, filters, order_by, .. } => {
            let known = column_name_list(&schema.columns);
            match find_missing(columns, &known) {
                Some(c) => Some(quote("invalid column '", c.as_str(), "'")),
                None => match find_missing(&filter_name_list(*filters), &known) {
                    Some(c) => Some(quote("invalid filter column '", c.as_str(), "'")),
                    None => match find_missing(
                        &ordering_name_list(order_by),
                        &schema.clustering_keys,
                    ) {
                        Some(c) => Some(quote("invalid order_by column '", c.as_str(), "'")),
                        None => None,
                    },
                },
            }
        },
        ToolCall::PartitionRows { partition, .. } => {
            if same_keys(&schema.partition_keys, partition) {
                None
            } else {
                let mut text = String::from_str("partition keys mismatch: expected ");
                let list = debug_list(&schema.partition_keys);
                text.append(list.as_str());
                Some(text)
            }
        },
        _ => None,
    }
}

/// The keyspace and table that a call names, if it names a table.
pub open spec fn target_of(call: Call) -> Option<(Seq<char>, Seq<char>)> {
    match call {
        Call::DescribeTable { keyspace, table } => Some((keyspace, table)),
        Call::SampleRows { keyspace, table, .. } => Some((keyspace, table)),
        Call::Select { keyspace, table, .. } => Some((keyspace, table)),
        Call::PagedSelect { keyspace, table, .. } => Some((keyspace, table)),
        Call::PartitionRows { keyspace, table, .. } => Some((keyspace, table)),
        Call::ListIndexes { keyspace, table } => Some((keyspace, table)),
        Call::SizeEstimates { keyspace, table } => Some((keyspace, table)),
        _ => None,
    }
}

impl<'a> ToolCall<'a> {
    /// The keyspace and table that the call names, if it names a table.
    pub fn table_target(&self) -> (target: Option<(&str, &str)>)
        ensures
            match target {
                Some((keyspace, table)) => target_of(self@) == Some((keyspace@, table@)),
                None => target_of(self@) is None,
            },
            needs_schema(self@) ==> target is Some,
    {
        match self {
            ToolCall::DescribeTable { keyspace, table } => Some((keyspace.as_str(), table.as_str())),
            ToolCall::SampleRows { keyspace, table, .. } => Some(
                (keyspace.as_str(), table.as_str()),
            ),
            ToolCall::Select { keyspace, table, .. } => Some((keyspace.as_str(), table.as_str())),
            ToolCall::PagedSelect { keyspace, table, .. } => Some(
                (keyspace.as_str(), table.as_str()),
            ),
            ToolCall::PartitionRows { keyspace, table, .. } => Some(
                (keyspace.as_str(), table.as_str()),
            ),
            ToolCall::ListIndexes { keyspace, table } => Some((keyspace.as_str(), table.as_str())),
            ToolCall::SizeEstimates { keyspace, table } => Some(
                (keyspace.as_str(), table.as_str()),
            ),
            _ => None,
        }
    }

    /// The name of the operation that the call is of.
    pub fn name(&self) -> (name: &'static str)
        ensures
            name@ == tool_name(self@),
    {
        match self {
            ToolCall::ListKeyspaces => "list_keyspaces",
            ToolCall::ListTables { .. } => "list_tables",
            ToolCall::DescribeTable { .. } => "describe_table",
            ToolCall::SampleRows { .. } => "sample_rows",
            ToolCall::Select { .. } => "select",
            ToolCall::PagedSelect { .. } => "paged_select",
            ToolCall::PartitionRows { .. } => "partition_rows",
            ToolCall::ClusterTopology => "cluster_topology",
            ToolCall::ListIndexes { .. } => "list_indexes",
            ToolCall::KeyspaceReplication { .. } => "keyspace_replication",
            ToolCall::ListViews { .. } => "list_views",
            ToolCall::ListUdts { .. } => "list_udts",
            ToolCall::ListFunctions { .. } => "list_functions",
            ToolCall::ListAggregates { .. } => "list_aggregates",
            ToolCall::SizeEstimates { .. } => "size_estimates",
            ToolCall::SearchSchema { .. } => "search_schema",
        }
    }

    /// Words the report of a failure to carry the call out.
    pub fn failure_reply(&self, reason: &str) -> (text: String)
        ensures
            text@ == failure_text(self@, reason@),
    {
        quote(self.name(), " failed: ", reason)
    }

    /// Says what is done first for the call.
    pub fn first_action(&self) -> (action: CallAction)
        ensures
            action@ == opening(self@),
    {
        match self {
            ToolCall::DescribeTable { .. } => CallAction::FetchSchema,
            ToolCall::SampleRows { filters, .. } => match filters {
                Some(_) => CallAction::FetchSchema,
                None => CallAction::Execute,
            },
            ToolCall::Select { .. } => CallAction::FetchSchema,
            ToolCall::PagedSelect { .. } => CallAction::FetchSchema,
            ToolCall::PartitionRows { .. } => CallAction::FetchSchema,
            _ => CallAction::Execute,
        }
    }

    /// Says what is done once the lookup of the table's metadata has ended.
    pub fn action_after_schema(&self, outcome: Result<&DescribeTable, &str>) -> (action: CallAction)
        ensures
            action@ == sequel(
                self@,
                match outcome {
                    Ok(schema) => Ok(schema@),
                    Err(reason) => Err(reason@),
                },
            ),
    {
        match outcome {
            Err(reason) => match self {
                ToolCall::DescribeTable { .. } => CallAction::Reply(self.failure_reply(reason)),
                _ => {
                    let mut cause = String::from_str("schema fetch failed: ");
                    cause.append(reason);
                    CallAction::Reply(self.failure_reply(cause.as_str()))
                },
            },
            Ok(schema) => match self {
                ToolCall::DescribeTable { .. } => CallAction::DeliverSchema,
                _ => match check_call(self, schema) {
                    Some(text) => CallAction::Reply(text),
                    None => CallAction::Execute,
                },
            },
        }
    }
}

/// An ordering column of a `select` that is no clustering key is always
/// complained about, whether or not it is a column of the table; and where
/// the projected columns and the filters' columns are all columns of the
/// table, the complaint names that column and the clustering keys that are
/// allowed, and the call is answered with it instead of being carried out.
pub proof fn lemma_ordering_restricted(
    schema: TableSchema,
    keyspace: Seq<char>,
    table: Seq<char>,
    columns: Seq<Seq<char>>,
    limit: nat,
    filters: Option<Seq<(Seq<char>, Json)>>,
    terms: Seq<(Seq<char>, Seq<char>)>,
    at: int,
)
    requires
        0 <= at < terms.len(),
        !schema.clustering_keys.contains(terms[at].0),
    ensures
        ({
            let call = Call::Select {
                keyspace,
                table,
                columns,
                limit,
                filters,
                order_by: Some(terms),
            };
            let known = column_names(schema.columns);
            &&& complaint(call, schema) is Some
            &&& sequel(call, Ok(schema)) is Reply
            &&& first_missing(columns, known) is None && first_missing(
                filter_names(filters),
                known,
            ) is None ==> exists|k: int|
                0 <= k <= at && !schema.clustering_keys.contains(terms[k].0) && complaint(
                    call,
                    schema,
                ) == Some(ordering_text(#[trigger] terms[k].0, schema.clustering_keys))
        }),
{
    let names = order_columns(terms);
    assert(names[at] == terms[at].0);
    lemma_first_missing_found(names, schema.clustering_keys, at);
    let k = choose|k: int|
        0 <= k <= at && !schema.clustering_keys.contains(names[k]) && first_missing(
            names,
            schema.clustering_keys,
        ) == Some(#[trigger] names[k]);
    assert(names[k] == terms[k].0);
}

/// Where some name is not known, the first such name is found, at or before
/// that place.
pub proof fn lemma_first_missing_found(names: Seq<Seq<char>>, known: Seq<Seq<char>>, at: int)
    requires
        0 <= at < names.len(),
        !known.contains(names[at]),
    ensures
        exists|k: int|
            0 <= k <= at && !known.contains(names[k]) && first_missing(names, known) == Some(
                #[trigger] names[k],
            ),
    decreases names.len(),
{
    if known.contains(names[0]) {
        let rest = names.drop_first();
        assert(rest[at - 1] == names[at]);
        lemma_first_missing_found(rest, known, at - 1);
        let k = choose|k: int|
            0 <= k <= at - 1 && !known.contains(rest[k]) && first_missing(rest, known) == Some(
                #[trigger] rest[k],
            );
        assert(names[k + 1] == rest[k]);
    } else {
        assert(first_missing(names, known) == Some(names[0]));
    }
}

/// A partition argument whose keys are not exactly the table's partition
/// keys is answered with a complaint that names the partition keys, and is
/// not carried out.
pub proof fn lemma_partition_keys_exact(
    schema: TableSchema,
    keyspace: Seq<char>,
    table: Seq<char>,
    partition: Seq<(Seq<char>, Json)>,
    limit: nat,
)
    requires
        !same_key_set(schema.partition_keys, entry_names(partition)),
    ensures
        ({
            let call = Call::PartitionRows { keyspace, table, partition, limit };
            &&& complaint(call, schema) == Some(mismatch_text(schema.partition_keys))
            &&& sequel(call, Ok(schema)) == Action::Reply(mismatch_text(schema.partition_keys))
        }),
{
}

/// A call is read only where every argument that its operation is said to
/// require is given.
pub proof fn lemma_required_given(name: Seq<char>, args: Seq<(Seq<char>, Json)>)
    requires
        parsed(name, args) is Ok,
    ensures
        forall|i: int|
            0 <= i < required_arguments(name).len() ==> has_key(
                args,
                #[trigger] required_arguments(name)[i],
            ),
{
}

/// Whether every one of the names is among the known ones.
pub open spec fn all_known(names: Seq<Seq<char>>, known: Seq<Seq<char>>) -> bool {
    forall|i: int| 0 <= i < names.len() ==> known.contains(#[trigger] names[i])
}

/// Where no name is missing, every name is known.
pub proof fn lemma_none_missing(names: Seq<Seq<char>>, known: Seq<Seq<char>>)
    ensures
        first_missing(names, known) is None <==> all_known(names, known),
    decreases names.len(),
{
    if names.len() > 0 {
        let rest = names.drop_first();
        lemma_none_missing(rest, known);
        if first_missing(names, known) is None {
            assert forall|i: int| 0 <= i < names.len() implies known.contains(
                #[trigger] names[i],
            ) by {
                if i > 0 {
                    assert(rest[i - 1] == names[i]);
                }
            }
        }
        if all_known(names, known) {
            assert(known.contains(names[0]));
            assert forall|i: int| 0 <= i < rest.len() implies known.contains(#[trigger] rest[i]) by {
                assert(rest[i] == names[i + 1]);
            }
        }
    }
}

/// A call about which there is no complaint keeps to the table: the columns
/// it projects and those it filters by are columns of the table, the columns
/// it orders by are clustering keys, and the keys of its partition argument
/// are exactly the partition keys. No unknown column is passed over.
pub proof fn lemma_accepted_call(call: Call, schema: TableSchema)
    requires
        complaint(call, schema) is None,
    ensures
        call matches Call::SampleRows { filters, .. } ==> all_known(
            filter_names(filters),
            column_names(schema.columns),
        ),
        call matches Call::Select { columns, filters, order_by, .. } ==> all_known(
            columns,
            column_names(schema.columns),
        ) && all_known(filter_names(filters), column_names(schema.columns)) && all_known(
            ordering_names(order_by),
            schema.clustering_keys,
        ),
        call matches Call::PagedSelect { columns, filters, order_by, .. } ==> all_known(
            columns,
            column_names(schema.columns),
        ) && all_known(filter_names(filters), column_names(schema.columns)) && all_known(
            ordering_names(order_by),
            schema.clustering_keys,
        ),
        call matches Call::PartitionRows { partition, .. } ==> same_key_set(
            schema.partition_keys,
            entry_names(partition),
        ),
{
    let known = column_names(schema.columns);
    match call {
        Call::SampleRows { filters, .. } => {
            lemma_none_missing(filter_names(filters), known);
        },
        Call::Select { columns, filters, order_by, .. } => {
            lemma_none_missing(columns, known);
            lemma_none_missing(filter_names(filters), known);
            lemma_none_missing(ordering_names(order_by), schema.clustering_keys);
        },
        Call::PagedSelect { columns, filters, order_by, .. } => {
            lemma_none_missing(columns, known);
            lemma_none_missing(filter_names(filters), known);
            lemma_none_missing(ordering_names(order_by), schema.clustering_keys);
        },
        _ => {},
    }
}

} // verus!
