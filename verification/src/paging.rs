//! Reading by page: the bounds on a page's size, the opaque cursor that
//! continues a read, and the shape of one page of results.
//!
//! A cursor is the driver's paging state written as base64 text. It means
//! nothing to the gateway; handing it back as it was given continues the read.

use crate::codec::{record_of, row_to_record};
use crate::cql::{rows_view, slots_view, Blob, Typed, TypedValue};
use crate::encoding::{base64_bytes, base64_decode, base64_encode, base64_text, decode_error_text};
use crate::error::QueryError;
use crate::json::{members_view, values_view, Json, JsonValue, Member};
use crate::query::{
    ordering_view, filters_view, select_outcome, select_statement, statement_result_view,
    Statement,
};
use vstd::prelude::*;
use vstd::string::*;

verus! {

/// The smallest number of rows that may be asked for at once.
pub const MIN_ROWS: u64 = 1;

/// The greatest number of rows that may be asked for at once.
pub const MAX_ROWS: u64 = 500;

/// A requested number of rows brought into the accepted range.
pub open spec fn clamped(n: nat) -> nat {
    if n < 1 {
        1
    } else if n > 500 {
        500
    } else {
        n
    }
}

/// Brings a requested row limit into the accepted range.
pub fn clamp_limit(n: u64) -> (limit: u32)
    ensures
        limit == clamped(n as nat),
        1 <= limit <= 500,
{
    if n < MIN_ROWS {
        1
    } else if n > MAX_ROWS {
        500
    } else {
        n as u32
    }
}

/// Brings a requested page size into the accepted range.
pub fn clamp_page_size(n: u64) -> (size: i32)
    ensures
        size == clamped(n as nat),
        1 <= size <= 500,
{
    if n < MIN_ROWS {
        1
    } else if n > MAX_ROWS {
        500
    } else {
        n as i32
    }
}

/// How a page ended, as the driver reports it.
#[derive(Debug, PartialEq)]
pub enum PageEnd {
    /// The read is exhausted.
    NoMorePages,
    /// More rows can follow; `state` is the paging state to continue from,
    /// where the driver gives one.
    HasMorePages { state: Option<Blob> },
}

/// The paging state from which a read can continue, if there is one.
pub open spec fn continuation(end: PageEnd) -> Option<Seq<u8>> {
    match end {
        PageEnd::HasMorePages { state: Some(blob) } => Some(blob@),
        _ => None,
    }
}

/// Reads the paging state out of a cursor. No cursor means a fresh read; a
/// cursor that is not base64 text is refused.
pub fn decode_cursor(cursor: Option<&str>) -> (result: Result<Option<Vec<u8>>, QueryError>)
    ensures
        match cursor {
            None => result matches Ok(None),
            Some(token) => match base64_bytes(token@) {
                Some(bytes) => result matches Ok(Some(state)) && state@ == bytes,
                None => result matches Err(error) && error is InvalidCursor,
            },
        },
{
    match cursor {
        None => Ok(None),
        Some(token) => match base64_decode(token) {
            Ok(bytes) => Ok(Some(bytes)),
            Err(error) => Err(QueryError::InvalidCursor { detail: decode_error_text(&error) }),
        },
    }
}

/// Writes the cursor that continues a read after a page: none where the read
/// is exhausted or the driver gave no state. Reading the cursor back with
/// [`decode_cursor`] gives the paging state it was written from.
pub fn next_cursor(end: &PageEnd) -> (cursor: Option<String>)
    ensures
        match continuation(*end) {
            Some(state) => cursor matches Some(text) && text@ == base64_text(state)
                && base64_bytes(text@) == Some(state),
            None => cursor is None,
        },
{
    match end {
        PageEnd::HasMorePages { state: Some(blob) } => Some(base64_encode(blob.as_bytes())),
        _ => None,
    }
}

/// Builds the statement for a read by page: the given columns, no limit.
pub fn paged_statement(
    keyspace: &str,
    table: &str,
    columns: &Vec<String>,
    filters: Option<&Vec<Member>>,
    order_by: Option<&Vec<(String, String)>>,
) -> (result: Result<Statement, QueryError>)
    ensures
        statement_result_view(result) == select_outcome(
            keyspace@,
            table@,
            columns.deep_view(),
            None,
            filters_view(filters),
            ordering_view(order_by),
        ),
{
    select_statement(keyspace, table, columns, None, filters, order_by)
}

/// The records of a run of rows as objects, one for one.
pub open spec fn record_objects(names: Seq<Seq<char>>, rows: Seq<Seq<Option<Typed>>>) -> Seq<Json> {
    Seq::new(rows.len(), |k: int| Json::Object(record_of(names, rows[k])))
}

/// The cursor as a generic value: its text, or null where there is none.
pub open spec fn cursor_json(state: Option<Seq<u8>>) -> Json {
    match state {
        Some(bytes) => Json::Text(base64_text(bytes)),
        None => Json::Null,
    }
}

/// One page of results: the rows' records under `items`, in the rows' order,
/// and the cursor under `next_cursor`.
pub open spec fn page_entries(
    names: Seq<Seq<char>>,
    rows: Seq<Seq<Option<Typed>>>,
    state: Option<Seq<u8>>,
) -> Seq<(Seq<char>, Json)> {
    seq![
        ("items"@, Json::Array(record_objects(names, rows))),
        ("next_cursor"@, cursor_json(state)),
    ]
}

/// Decodes the rows of a result into objects, given its column names.
pub fn rows_to_objects(names: &Vec<String>, rows: &Vec<Vec<Option<TypedValue>>>) -> (items: Vec<
    JsonValue,
>)
    ensures
        values_view(items@) == record_objects(names.deep_view(), rows_view(rows@)),
{
    let mut items: Vec<JsonValue> = Vec::new();
    let mut k: usize = 0;
    while k < rows.len()
        invariant
            k <= rows.len(),
            items@.len() == k,
            forall|j: int|
                0 <= j < k ==> (#[trigger] items@[j])@ == Json::Object(
                    record_of(names.deep_view(), slots_view(rows@[j]@)),
                ),
        decreases rows.len() - k,
    {
        let record = row_to_record(names, &rows[k]);
        items.push(JsonValue::Object(record));
        k += 1;
    }
    assert(values_view(items@) =~= record_objects(names.deep_view(), rows_view(rows@)));
    items
}

/// Puts one page of results together, given the result's column names, its
/// rows and how the page ended.
pub fn page_result(names: &Vec<String>, rows: &Vec<Vec<Option<TypedValue>>>, end: &PageEnd) -> (page:
    Vec<Member>)
    ensures
        members_view(page@) == page_entries(
            names.deep_view(),
            rows_view(rows@),
            continuation(*end),
        ),
{
    let items = rows_to_objects(names, rows);
    let cursor = match next_cursor(end) {
        Some(text) => JsonValue::Text(text),
        None => JsonValue::Null,
    };
    let mut page: Vec<Member> = Vec::new();
    page.push(Member { name: String::from_str("items"), value: JsonValue::Array(items) });
    page.push(Member { name: String::from_str("next_cursor"), value: cursor });
    assert(members_view(page@) =~= page_entries(
        names.deep_view(),
        rows_view(rows@),
        continuation(*end),
    ));
    page
}

/// A page holds one item for each row that the driver returned.
pub proof fn lemma_page_items(
    names: Seq<Seq<char>>,
    rows: Seq<Seq<Option<Typed>>>,
    state: Option<Seq<u8>>,
)
    ensures
        page_entries(names, rows, state)[0].1 matches Json::Array(items) && items.len()
            == rows.len(),
        page_entries(names, rows, state)[1].1 is Null <==> state is None,
{
}

} // verus!
