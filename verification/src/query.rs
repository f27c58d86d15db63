//! The statement builder: from validated names, equality filters, an ordering
//! and a limit to the text of a parameterized read and the values to bind.
//!
//! Names are written into the text as they stand, so each one must pass the
//! identifier check; values are never written into the text.

use crate::codec::{is_scalar, query_value, to_query_value};
use crate::cql::{typed_seq, Typed, TypedValue};
use crate::db::DescribeTable;
use crate::error::{Fault, QueryError};
use crate::ident::{is_valid_identifier, sanitize_ident};
use crate::json::{
    entry_value, find_member, has_key, key_index, lemma_key_index, members_view, Json, Member,
};
use crate::text::{
    ascii_lowered, copy_texts, decimal, decimal_text, eq_ignore_ascii_case, join, join_text,
    str_eq,
};
use vstd::prelude::*;
use vstd::string::*;

verus! {

/// A statement to prepare, with the values to bind to its markers in order.
#[derive(Debug, PartialEq)]
pub struct Statement {
    pub text: String,
    pub values: Vec<TypedValue>,
}

/// The mathematical value of a [`Statement`].
pub struct StatementView {
    pub text: Seq<char>,
    pub values: Seq<Typed>,
}

impl View for Statement {
    type V = StatementView;

    open spec fn view(&self) -> StatementView {
        StatementView { text: self.text@, values: typed_seq(self.values@) }
    }
}

/// The names of a run of entries, one for one.
pub open spec fn entry_names(entries: Seq<(Seq<char>, Json)>) -> Seq<Seq<char>> {
    Seq::new(entries.len(), |i: int| entries[i].0)
}

/// Whether every name of the run is a valid identifier.
pub open spec fn all_valid(names: Seq<Seq<char>>) -> bool {
    forall|i: int| 0 <= i < names.len() ==> is_valid_identifier(#[trigger] names[i])
}

/// One equality predicate with a bind marker for each column.
pub open spec fn predicates(columns: Seq<Seq<char>>) -> Seq<Seq<char>> {
    Seq::new(columns.len(), |i: int| columns[i] + " = ?"@)
}

/// The filter clause for the columns, in their order: nothing where there is
/// no column, else ` WHERE c1 = ? AND c2 = ?` and so on.
pub open spec fn filter_clause(columns: Seq<Seq<char>>) -> Seq<char> {
    if columns.len() == 0 {
        Seq::empty()
    } else {
        " WHERE "@ + join(predicates(columns), " AND "@)
    }
}

/// The values bound for a run of filters, one for one.
pub open spec fn bound_values(filters: Seq<(Seq<char>, Json)>) -> Seq<Typed> {
    Seq::new(filters.len(), |i: int| query_value(filters[i].1))
}

/// What is wrong with the first filter that cannot be used, if there is one:
/// its column name, or else its value.
pub open spec fn filter_fault(filters: Seq<(Seq<char>, Json)>) -> Option<Fault>
    decreases filters.len(),
{
    if filters.len() == 0 {
        None
    } else if !is_valid_identifier(filters[0].0) {
        Some(Fault::InvalidFilterColumn)
    } else if !is_scalar(filters[0].1) {
        Some(Fault::UnsupportedFilterValue)
    } else {
        filter_fault(filters.drop_first())
    }
}

/// The filter clause and bound values for a run of filters, or the reason
/// why there are none.
pub open spec fn filters_outcome(filters: Seq<(Seq<char>, Json)>) -> Result<
    (Seq<char>, Seq<Typed>),
    Fault,
> {
    match filter_fault(filters) {
        Some(fault) => Err(fault),
        None => Ok((filter_clause(entry_names(filters)), bound_values(filters))),
    }
}

/// The filters that an optional list of members stands for: none where the
/// list is absent.
pub open spec fn filters_view(filters: Option<&Vec<Member>>) -> Seq<(Seq<char>, Json)> {
    match filters {
        Some(members) => members_view(members@),
        None => Seq::empty(),
    }
}

/// The keyword for a direction: `DESC` for `desc` in any mix of ASCII case,
/// `ASC` for anything else.
pub open spec fn direction_word(direction: Seq<char>) -> Seq<char> {
    if ascii_lowered(direction) == "desc"@ {
        "DESC"@
    } else {
        "ASC"@
    }
}

/// The column and direction of each ordering term, one for one.
pub open spec fn order_view(order: Seq<(String, String)>) -> Seq<(Seq<char>, Seq<char>)> {
    Seq::new(order.len(), |i: int| (order[i].0@, order[i].1@))
}

/// The ordering terms that an optional list stands for: none where the list
/// is absent.
pub open spec fn ordering_view(order_by: Option<&Vec<(String, String)>>) -> Seq<
    (Seq<char>, Seq<char>),
> {
    match order_by {
        Some(list) => order_view(list@),
        None => Seq::empty(),
    }
}

/// The columns of a run of ordering terms, one for one.
pub open spec fn order_columns(order: Seq<(Seq<char>, Seq<char>)>) -> Seq<Seq<char>> {
    Seq::new(order.len(), |i: int| order[i].0)
}

/// Each ordering term written as its column, a space and its keyword.
pub open spec fn order_terms(order: Seq<(Seq<char>, Seq<char>)>) -> Seq<Seq<char>> {
    Seq::new(order.len(), |i: int| order[i].0 + " "@ + direction_word(order[i].1))
}

/// The ordering clause: nothing where there is no term, else
/// ` ORDER BY c1 ASC, c2 DESC` and so on.
pub open spec fn order_clause(order: Seq<(Seq<char>, Seq<char>)>) -> Seq<char> {
    if order.len() == 0 {
        Seq::empty()
    } else {
        " ORDER BY "@ + join(order_terms(order), ", "@)
    }
}

/// The ordering clause, or the refusal where a column's name is not a valid
/// identifier.
pub open spec fn order_outcome(order: Seq<(Seq<char>, Seq<char>)>) -> Result<Seq<char>, Fault> {
    if all_valid(order_columns(order)) {
        Ok(order_clause(order))
    } else {
        Err(Fault::InvalidOrderColumn)
    }
}

/// What is wrong with the names of the keyspace and table, if anything.
pub open spec fn target_fault(keyspace: Seq<char>, table: Seq<char>) -> Option<Fault> {
    if !is_valid_identifier(keyspace) {
        Some(Fault::InvalidKeyspace)
    } else if !is_valid_identifier(table) {
        Some(Fault::InvalidTable)
    } else {
        None
    }
}

/// What is wrong with the projection, if anything: it is empty, or one of its
/// names is not a valid identifier.
pub open spec fn projection_fault(columns: Seq<Seq<char>>) -> Option<Fault> {
    if columns.len() == 0 {
        Some(Fault::EmptyColumns)
    } else if !all_valid(columns) {
        Some(Fault::InvalidColumn)
    } else {
        None
    }
}

/// The limit clause: ` LIMIT n`, or nothing where rows are fetched by page.
pub open spec fn limit_clause(limit: Option<nat>) -> Seq<char> {
    match limit {
        Some(n) => " LIMIT "@ + decimal(n),
        None => Seq::empty(),
    }
}

/// The text of a read of the given columns.
pub open spec fn select_text(
    keyspace: Seq<char>,
    table: Seq<char>,
    columns: Seq<Seq<char>>,
    filter_part: Seq<char>,
    order_part: Seq<char>,
    limit: Option<nat>,
) -> Seq<char> {
    "SELECT "@ + join(columns, ", "@) + " FROM "@ + keyspace + "."@ + table + filter_part
        + order_part + limit_clause(limit)
}

/// The text of a read of all columns.
pub open spec fn select_all_text(
    keyspace: Seq<char>,
    table: Seq<char>,
    filter_part: Seq<char>,
    limit: nat,
) -> Seq<char> {
    "SELECT * FROM "@ + keyspace + "."@ + table + filter_part + " LIMIT "@ + decimal(limit)
}

/// The statement that reads the given columns, or the first reason why none
/// is built: the keyspace's name, the table's, an empty projection, a
/// projected name, a filter, an ordering column.
pub open spec fn select_outcome(
    keyspace: Seq<char>,
    table: Seq<char>,
    columns: Seq<Seq<char>>,
    limit: Option<nat>,
    filters: Seq<(Seq<char>, Json)>,
    order: Seq<(Seq<char>, Seq<char>)>,
) -> Result<StatementView, Fault> {
    match target_fault(keyspace, table) {
        Some(fault) => Err(fault),
        None => match projection_fault(columns) {
            Some(fault) => Err(fault),
            None => match filters_outcome(filters) {
                Err(fault) => Err(fault),
                Ok((filter_part, values)) => match order_outcome(order) {
                    Err(fault) => Err(fault),
                    Ok(order_part) => Ok(
                        StatementView {
                            text: select_text(
                                keyspace,
                                table,
                                columns,
                                filter_part,
                                order_part,
                                limit,
                            ),
                            values,
                        },
                    ),
                },
            },
        },
    }
}

/// The statement that reads all columns of some rows, or the first reason
/// why none is built: the keyspace's name, the table's, a filter.
pub open spec fn sample_outcome(
    keyspace: Seq<char>,
    table: Seq<char>,
    limit: nat,
    filters: Seq<(Seq<char>, Json)>,
) -> Result<StatementView, Fault> {
    match target_fault(keyspace, table) {
        Some(fault) => Err(fault),
        None => match filters_outcome(filters) {
            Err(fault) => Err(fault),
            Ok((filter_part, values)) => Ok(
                StatementView {
                    text: select_all_text(keyspace, table, filter_part, limit),
                    values,
                },
            ),
        },
    }
}

/// The mathematical value of a clause with its bound values.
pub open spec fn clause_view(built: (String, Vec<TypedValue>)) -> (Seq<char>, Seq<Typed>) {
    (built.0@, typed_seq(built.1@))
}

/// The mathematical value of an attempt to build a clause with values.
pub open spec fn clause_result_view(result: Result<(String, Vec<TypedValue>), QueryError>) -> Result<
    (Seq<char>, Seq<Typed>),
    Fault,
> {
    match result {
        Ok(built) => Ok(clause_view(built)),
        Err(error) => Err(error@),
    }
}

/// The mathematical value of an attempt to build a clause.
pub open spec fn text_result_view(result: Result<String, QueryError>) -> Result<Seq<char>, Fault> {
    match result {
        Ok(text) => Ok(text@),
        Err(error) => Err(error@),
    }
}

/// The mathematical value of an attempt to build a statement.
pub open spec fn statement_result_view(result: Result<Statement, QueryError>) -> Result<
    StatementView,
    Fault,
> {
    match result {
        Ok(statement) => Ok(statement@),
        Err(error) => Err(error@),
    }
}

/// A filter that cannot be used makes the rest of the run irrelevant; one
/// that can be used leaves the verdict to the rest.
proof fn lemma_filter_fault_skip(filters: Seq<(Seq<char>, Json)>, i: int)
    requires
        0 <= i < filters.len(),
        filter_fault(filters) == filter_fault(filters.skip(i)),
    ensures
        !is_valid_identifier(filters[i].0) ==> filter_fault(filters) == Some(
            Fault::InvalidFilterColumn,
        ),
        is_valid_identifier(filters[i].0) && !is_scalar(filters[i].1) ==> filter_fault(filters)
            == Some(Fault::UnsupportedFilterValue),
        is_valid_identifier(filters[i].0) && is_scalar(filters[i].1) ==> filter_fault(filters)
            == filter_fault(filters.skip(i + 1)),
{
    let rest = filters.skip(i);
    assert(rest[0] == filters[i]);
    assert(rest.drop_first() =~= filters.skip(i + 1));
}

/// Builds the filter clause and the values to bind, in the filters' order.
pub fn build_filters_clause_prepared(filters: Option<&Vec<Member>>) -> (result: Result<
    (String, Vec<TypedValue>),
    QueryError,
>)
    ensures
        clause_result_view(result) == filters_outcome(filters_view(filters)),
{
    let mut parts: Vec<String> = Vec::new();
    let mut values: Vec<TypedValue> = Vec::new();
    let ghost all = filters_view(filters);
    if let Some(members) = filters {
        let mut i: usize = 0;
        assert(all.skip(0) =~= all);
        while i < members.len()
            invariant
                i <= members.len(),
                all == members_view(members@),
                all == filters_view(filters),
                filter_fault(all) == filter_fault(all.skip(i as int)),
                parts@.len() == i,
                values@.len() == i,
                forall|j: int| 0 <= j < i ==> (#[trigger] parts@[j])@ == all[j].0 + " = ?"@,
                forall|j: int| 0 <= j < i ==> (#[trigger] values@[j])@ == query_value(all[j].1),
            decreases members.len() - i,
        {
            proof {
                lemma_filter_fault_skip(all, i as int);
            }
            let member = &members[i];
            if !sanitize_ident(member.name.as_str()) {
                return Err(QueryError::InvalidFilterColumn);
            }
            let value = match to_query_value(&member.value) {
                Some(v) => v,
                None => {
                    return Err(QueryError::UnsupportedFilterValue);
                },
            };
            let mut part = member.name.clone();
            part.append(" = ?");
            parts.push(part);
            values.push(value);
            i += 1;
        }
        assert(all.skip(members.len() as int) =~= Seq::empty());
    }
    proof {
        assert(parts.deep_view() =~= predicates(entry_names(all)));
        assert(typed_seq(values@) =~= bound_values(all));
    }
    let clause = if parts.len() == 0 {
        String::new()
    } else {
        let mut clause = String::from_str(" WHERE ");
        let joined = join_text(&parts, " AND ");
        clause.append(joined.as_str());
        clause
    };
    Ok((clause, values))
}

/// Writes the keyword for a direction.
pub fn direction_keyword(direction: &str) -> (word: &'static str)
    ensures
        word@ == direction_word(direction@),
{
    proof {
        reveal_strlit("desc");
        assert(ascii_lowered("desc"@) =~= "desc"@);
    }
    if eq_ignore_ascii_case(direction, "desc") {
        "DESC"
    } else {
        "ASC"
    }
}

/// Builds the ordering clause from the terms, in their order.
pub fn build_order_by_clause(order_by: Option<&Vec<(String, String)>>) -> (result: Result<
    String,
    QueryError,
>)
    ensures
        text_result_view(result) == order_outcome(ordering_view(order_by)),
{
    let ghost all = ordering_view(order_by);
    let mut parts: Vec<String> = Vec::new();
    if let Some(list) = order_by {
        let mut i: usize = 0;
        while i < list.len()
            invariant
                i <= list.len(),
                all == order_view(list@),
                all == ordering_view(order_by),
                parts@.len() == i,
                forall|j: int| 0 <= j < i ==> is_valid_identifier(#[trigger] order_columns(all)[j]),
                forall|j: int|
                    0 <= j < i ==> (#[trigger] parts@[j])@ == all[j].0 + " "@ + direction_word(
                        all[j].1,
                    ),
            decreases list.len() - i,
        {
            let term = &list[i];
            if !sanitize_ident(term.0.as_str()) {
                proof {
                    assert(!is_valid_identifier(order_columns(all)[i as int]));
                }
                return Err(QueryError::InvalidOrderColumn);
            }
            let mut part = term.0.clone();
            part.append(" ");
            part.append(direction_keyword(term.1.as_str()));
            parts.push(part);
            i += 1;
        }
    }
    proof {
        assert(parts.deep_view() =~= order_terms(all));
    }
    if parts.len() == 0 {
        Ok(String::new())
    } else {
        let mut clause = String::from_str(" ORDER BY ");
        let joined = join_text(&parts, ", ");
        clause.append(joined.as_str());
        Ok(clause)
    }
}

/// Checks the names of the keyspace and the table.
pub fn check_target(keyspace: &str, table: &str) -> (result: Result<(), QueryError>)
    ensures
        match target_fault(keyspace@, table@) {
            Some(fault) => result matches Err(error) && error@ == fault,
            None => result is Ok,
        },
{
    if !sanitize_ident(keyspace) {
        Err(QueryError::InvalidKeyspace)
    } else if !sanitize_ident(table) {
        Err(QueryError::InvalidTable)
    } else {
        Ok(())
    }
}

/// Checks that a projection is not empty and holds valid names only.
pub fn check_projection(columns: &Vec<String>) -> (result: Result<(), QueryError>)
    ensures
        match projection_fault(columns.deep_view()) {
            Some(fault) => result matches Err(error) && error@ == fault,
            None => result is Ok,
        },
{
    if columns.len() == 0 {
        return Err(QueryError::EmptyColumns);
    }
    let mut i: usize = 0;
    while i < columns.len()
        invariant
            i <= columns.len(),
            columns.len() > 0,
            forall|j: int| 0 <= j < i ==> is_valid_identifier(#[trigger] columns.deep_view()[j]),
        decreases columns.len() - i,
    {
        if !sanitize_ident(columns[i].as_str()) {
            proof {
                assert(!is_valid_identifier(columns.deep_view()[i as int]));
            }
            return Err(QueryError::InvalidColumn);
        }
        i += 1;
    }
    Ok(())
}

/// Builds the statement that reads the given columns: with a limit where
/// one is given, without where rows are fetched by page.
pub fn select_statement(
    keyspace: &str,
    table: &str,
    columns: &Vec<String>,
    limit: Option<u32>,
    filters: Option<&Vec<Member>>,
    order_by: Option<&Vec<(String, String)>>,
) -> (result: Result<Statement, QueryError>)
    ensures
        statement_result_view(result) == select_outcome(
            keyspace@,
            table@,
            columns.deep_view(),
            limit_view(limit),
            filters_view(filters),
            ordering_view(order_by),
        ),
{
    match check_target(keyspace, table) {
        Err(error) => {
            return Err(error);
        },
        Ok(_) => {},
    }
    match check_projection(columns) {
        Err(error) => {
            return Err(error);
        },
        Ok(_) => {},
    }
    let (filter_part, values) = match build_filters_clause_prepared(filters) {
        Err(error) => {
            return Err(error);
        },
        Ok(built) => built,
    };
    let order_part = match build_order_by_clause(order_by) {
        Err(error) => {
            return Err(error);
        },
        Ok(text) => text,
    };
    let mut text = String::from_str("SELECT ");
    let list = join_text(columns, ", ");
    text.append(list.as_str());
    text.append(" FROM ");
    text.append(keyspace);
    text.append(".");
    text.append(table);
    text.append(filter_part.as_str());
    text.append(order_part.as_str());
    match limit {
        Some(n) => {
            text.append(" LIMIT ");
            let digits = decimal_text(n as u64);
            text.append(digits.as_str());
        },
        None => {},
    }
    proof {
        assert(text@ =~= select_text(
            keyspace@,
            table@,
            columns.deep_view(),
            filter_part@,
            order_part@,
            limit_view(limit),
        ));
    }
    Ok(Statement { text, values })
}

/// The limit as a mathematical number.
pub open spec fn limit_view(limit: Option<u32>) -> Option<nat> {
    match limit {
        Some(n) => Some(n as nat),
        None => None,
    }
}

/// Builds the statement that reads all columns of up to `limit` rows.
pub fn sample_statement(keyspace: &str, table: &str, limit: u32, filters: Option<&Vec<Member>>) -> (result:
    Result<Statement, QueryError>)
    ensures
        statement_result_view(result) == sample_outcome(
            keyspace@,
            table@,
            limit as nat,
            filters_view(filters),
        ),
{
    match check_target(keyspace, table) {
        Err(error) => {
            return Err(error);
        },
        Ok(_) => {},
    }
    let (filter_part, values) = match build_filters_clause_prepared(filters) {
        Err(error) => {
            return Err(error);
        },
        Ok(built) => built,
    };
    let mut text = String::from_str("SELECT * FROM ");
    text.append(keyspace);
    text.append(".");
    text.append(table);
    text.append(filter_part.as_str());
    text.append(" LIMIT ");
    let digits = decimal_text(limit as u64);
    text.append(digits.as_str());
    proof {
        assert(text@ =~= select_all_text(keyspace@, table@, filter_part@, limit as nat));
    }
    Ok(Statement { text, values })
}

/// Whether two runs of names hold the same names, whatever their order and
/// however often each name occurs.
pub open spec fn same_key_set(expected: Seq<Seq<char>>, provided: Seq<Seq<char>>) -> bool {
    expected.to_set() == provided.to_set()
}

/// The value given for a key: that of the first entry of that name.
pub open spec fn value_of(entries: Seq<(Seq<char>, Json)>, key: Seq<char>) -> Json {
    match entry_value(entries, key) {
        Some(value) => value,
        None => Json::Null,
    }
}

/// What is wrong with the first partition key that cannot be used, if there
/// is one: its name, or else the value given for it.
pub open spec fn partition_fault(keys: Seq<Seq<char>>, entries: Seq<(Seq<char>, Json)>) -> Option<
    Fault,
>
    decreases keys.len(),
{
    if keys.len() == 0 {
        None
    } else if !is_valid_identifier(keys[0]) {
        Some(Fault::InvalidPartitionColumn)
    } else if !is_scalar(value_of(entries, keys[0])) {
        Some(Fault::UnsupportedPartitionValue)
    } else {
        partition_fault(keys.drop_first(), entries)
    }
}

/// The values bound for the partition keys, in the keys' order.
pub open spec fn partition_values(keys: Seq<Seq<char>>, entries: Seq<(Seq<char>, Json)>) -> Seq<
    Typed,
> {
    Seq::new(keys.len(), |i: int| query_value(value_of(entries, keys[i])))
}

/// The clause that fixes every partition key, in the keys' order.
pub open spec fn partition_clause(keys: Seq<Seq<char>>) -> Seq<char> {
    " WHERE "@ + join(predicates(keys), " AND "@)
}

/// The statement that reads the rows of one partition, or the first reason
/// why none is built: the argument's keys are not exactly the table's
/// partition keys; the keyspace's name; the table's; a key's name or value.
/// The clause and the bound values follow the table's key order, not the
/// argument's.
pub open spec fn partition_outcome(
    partition_keys: Seq<Seq<char>>,
    keyspace: Seq<char>,
    table: Seq<char>,
    entries: Seq<(Seq<char>, Json)>,
    limit: nat,
) -> Result<StatementView, Fault> {
    if !same_key_set(partition_keys, entry_names(entries)) {
        Err(Fault::PartitionKeysMismatch { expected: partition_keys })
    } else {
        match target_fault(keyspace, table) {
            Some(fault) => Err(fault),
            None => match partition_fault(partition_keys, entries) {
                Some(fault) => Err(fault),
                None => Ok(
                    StatementView {
                        text: select_all_text(
                            keyspace,
                            table,
                            partition_clause(partition_keys),
                            limit,
                        ),
                        values: partition_values(partition_keys, entries),
                    },
                ),
            },
        }
    }
}

/// Some entry has a name exactly when the name is among the entries' names.
pub proof fn lemma_has_key_names(entries: Seq<(Seq<char>, Json)>, key: Seq<char>)
    ensures
        has_key(entries, key) <==> entry_names(entries).contains(key),
{
    lemma_key_index(entries, key);
    let names = entry_names(entries);
    if has_key(entries, key) {
        assert(names[key_index(entries, key)] == key);
    }
    if names.contains(key) {
        let i = choose|i: int| 0 <= i < names.len() && names[i] == key;
        assert(entries[i].0 == key);
    }
}

/// Decides whether a name is among the names of a list.
pub fn contains_name(names: &Vec<String>, name: &str) -> (found: bool)
    ensures
        found == names.deep_view().contains(name@),
{
    let mut i: usize = 0;
    while i < names.len()
        invariant
            i <= names.len(),
            forall|j: int| 0 <= j < i ==> (#[trigger] names.deep_view()[j]) != name@,
        decreases names.len() - i,
    {
        if str_eq(names[i].as_str(), name) {
            assert(names.deep_view()[i as int] == name@);
            return true;
        }
        i += 1;
    }
    false
}

/// Decides whether the names of the entries are exactly the expected names.
pub fn same_keys(expected: &Vec<String>, provided: &Vec<Member>) -> (same: bool)
    ensures
        same == same_key_set(expected.deep_view(), entry_names(members_view(provided@))),
{
    let ghost wanted = expected.deep_view();
    let ghost given = entry_names(members_view(provided@));
    let mut i: usize = 0;
    while i < expected.len()
        invariant
            i <= expected.len(),
            wanted == expected.deep_view(),
            given == entry_names(members_view(provided@)),
            forall|j: int| 0 <= j < i ==> given.contains(#[trigger] wanted[j]),
        decreases expected.len() - i,
    {
        let at = find_member(provided, expected[i].as_str());
        proof {
            lemma_has_key_names(members_view(provided@), wanted[i as int]);
        }
        if at >= provided.len() {
            proof {
                assert(wanted.contains(wanted[i as int]));
                assert(wanted.to_set().contains(wanted[i as int]));
                assert(!given.to_set().contains(wanted[i as int]));
            }
            return false;
        }
        i += 1;
    }
    let mut k: usize = 0;
    while k < provided.len()
        invariant
            k <= provided.len(),
            wanted == expected.deep_view(),
            given == entry_names(members_view(provided@)),
            forall|j: int| 0 <= j < wanted.len() ==> given.contains(#[trigger] wanted[j]),
            forall|j: int| 0 <= j < k ==> wanted.contains(#[trigger] given[j]),
        decreases provided.len() - k,
    {
        if !contains_name(expected, provided[k].name.as_str()) {
            proof {
                assert(given[k as int] == provided@[k as int].name@);
                assert(given.contains(given[k as int]));
                assert(given.to_set().contains(given[k as int]));
                assert(!wanted.to_set().contains(given[k as int]));
            }
            return false;
        }
        proof {
            assert(given[k as int] == provided@[k as int].name@);
        }
        k += 1;
    }
    proof {
        assert forall|name: Seq<char>| wanted.to_set().contains(name) == given.to_set().contains(
            name,
        ) by {
            if wanted.contains(name) {
                let j = choose|j: int| 0 <= j < wanted.len() && wanted[j] == name;
                assert(given.contains(wanted[j]));
            }
            if given.contains(name) {
                let j = choose|j: int| 0 <= j < given.len() && given[j] == name;
                assert(wanted.contains(given[j]));
            }
        }
        assert(wanted.to_set() =~= given.to_set());
    }
    true
}

/// A key that cannot be used makes the rest of the keys irrelevant; one that
/// can be used leaves the verdict to the rest.
proof fn lemma_partition_fault_skip(
    keys: Seq<Seq<char>>,
    entries: Seq<(Seq<char>, Json)>,
    i: int,
)
    requires
        0 <= i < keys.len(),
        partition_fault(keys, entries) == partition_fault(keys.skip(i), entries),
    ensures
        !is_valid_identifier(keys[i]) ==> partition_fault(keys, entries) == Some(
            Fault::InvalidPartitionColumn,
        ),
        is_valid_identifier(keys[i]) && !is_scalar(value_of(entries, keys[i])) ==> partition_fault(
            keys,
            entries,
        ) == Some(Fault::UnsupportedPartitionValue),
        is_valid_identifier(keys[i]) && is_scalar(value_of(entries, keys[i])) ==> partition_fault(
            keys,
            entries,
        ) == partition_fault(keys.skip(i + 1), entries),
{
    let rest = keys.skip(i);
    assert(rest[0] == keys[i]);
    assert(rest.drop_first() =~= keys.skip(i + 1));
}

/// Builds the statement that reads up to `limit` rows of the partition that
/// the argument names, given the table's metadata.
pub fn partition_statement(
    schema: &DescribeTable,
    keyspace: &str,
    table: &str,
    partition: &Vec<Member>,
    limit: u32,
) -> (result: Result<Statement, QueryError>)
    ensures
        statement_result_view(result) == partition_outcome(
            schema@.partition_keys,
            keyspace@,
            table@,
            members_view(partition@),
            limit as nat,
        ),
{
    let keys = &schema.partition_keys;
    let ghost names = keys.deep_view();
    let ghost entries = members_view(partition@);
    if !same_keys(keys, partition) {
        return Err(QueryError::PartitionKeysMismatch { expected: copy_texts(keys) });
    }
    match check_target(keyspace, table) {
        Err(error) => {
            return Err(error);
        },
        Ok(_) => {},
    }
    let mut parts: Vec<String> = Vec::new();
    let mut values: Vec<TypedValue> = Vec::new();
    let mut i: usize = 0;
    assert(names.skip(0) =~= names);
    while i < keys.len()
        invariant
            i <= keys.len(),
            names == keys.deep_view(),
            names == schema@.partition_keys,
            entries == members_view(partition@),
            same_key_set(names, entry_names(entries)),
            target_fault(keyspace@, table@) is None,
            partition_fault(names, entries) == partition_fault(names.skip(i as int), entries),
            parts@.len() == i,
            values@.len() == i,
            forall|j: int| 0 <= j < i ==> (#[trigger] parts@[j])@ == names[j] + " = ?"@,
            forall|j: int|
                0 <= j < i ==> (#[trigger] values@[j])@ == query_value(value_of(entries, names[j])),
        decreases keys.len() - i,
    {
        proof {
            lemma_partition_fault_skip(names, entries, i as int);
        }
        let key = &keys[i];
        if !sanitize_ident(key.as_str()) {
            return Err(QueryError::InvalidPartitionColumn);
        }
        let at = find_member(partition, key.as_str());
        let value = if at < partition.len() {
            to_query_value(&partition[at].value)
        } else {
            None
        };
        let value = match value {
            Some(v) => v,
            None => {
                return Err(QueryError::UnsupportedPartitionValue);
            },
        };
        let mut part = key.clone();
        part.append(" = ?");
        parts.push(part);
        values.push(value);
        i += 1;
    }
    proof {
        assert(names.skip(keys.len() as int) =~= Seq::empty());
        assert(parts.deep_view() =~= predicates(names));
        assert(typed_seq(values@) =~= partition_values(names, entries));
    }
    let mut text = String::from_str("SELECT * FROM ");
    text.append(keyspace);
    text.append(".");
    text.append(table);
    text.append(" WHERE ");
    let joined = join_text(&parts, " AND ");
    text.append(joined.as_str());
    text.append(" LIMIT ");
    let digits = decimal_text(limit as u64);
    text.append(digits.as_str());
    proof {
        assert(text@ =~= select_all_text(
            keyspace@,
            table@,
            partition_clause(names),
            limit as nat,
        ));
    }
    Ok(Statement { text, values })
}

/// A partition argument whose keys are a strict subset or a strict superset
/// of the table's partition keys is refused, with the table's partition keys
/// named in the refusal; no statement is built from part of it.
pub proof fn lemma_partial_partition_refused(
    partition_keys: Seq<Seq<char>>,
    keyspace: Seq<char>,
    table: Seq<char>,
    entries: Seq<(Seq<char>, Json)>,
    limit: nat,
)
    requires
        ({
            let expected = partition_keys.to_set();
            let provided = entry_names(entries).to_set();
            ||| provided.subset_of(expected) && provided != expected
            ||| expected.subset_of(provided) && provided != expected
        }),
    ensures
        partition_outcome(partition_keys, keyspace, table, entries, limit) == Err::<
            StatementView,
            Fault,
        >(Fault::PartitionKeysMismatch { expected: partition_keys }),
        crate::error::fault_text(Fault::PartitionKeysMismatch { expected: partition_keys })
            == "partition keys mismatch: expected "@ + crate::encoding::debug_list_text(
            partition_keys,
        ),
{
}

} // verus!
