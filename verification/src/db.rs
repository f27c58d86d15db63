//! Table metadata: the columns of a table, and its partition and clustering
//! keys in the order that fixes how statements are written and bound.

use crate::cql::{rows_view, slots_view, Typed, TypedValue};
use crate::text::{copy_opt_text, copy_texts, str_eq};
use vstd::prelude::*;
use vstd::string::*;

verus! {

/// One column of a table, as the cluster's metadata describes it.
#[derive(Debug, Clone, PartialEq)]
pub struct ColumnMeta {
    pub column_name: String,
    /// `partition_key`, `clustering`, `regular` or `static`.
    pub kind: String,
    pub position: i32,
    /// The declared type's name.
    pub data_type: String,
    pub clustering_order: Option<String>,
}

/// A table's metadata: its columns and its ordered key lists.
#[derive(Debug, Clone, PartialEq)]
pub struct DescribeTable {
    pub keyspace: String,
    pub table: String,
    pub partition_keys: Vec<String>,
    pub clustering_keys: Vec<String>,
    pub columns: Vec<ColumnMeta>,
}

/// The mathematical value of a [`ColumnMeta`].
pub struct Column {
    pub name: Seq<char>,
    pub kind: Seq<char>,
    pub position: int,
    pub data_type: Seq<char>,
    pub clustering_order: Option<Seq<char>>,
}

/// The mathematical value of a [`DescribeTable`].
pub struct TableSchema {
    pub keyspace: Seq<char>,
    pub table: Seq<char>,
    pub partition_keys: Seq<Seq<char>>,
    pub clustering_keys: Seq<Seq<char>>,
    pub columns: Seq<Column>,
}

/// The text of an optional string.
pub open spec fn opt_text(text: Option<String>) -> Option<Seq<char>> {
    match text {
        Some(s) => Some(s@),
        None => None,
    }
}

impl View for ColumnMeta {
    type V = Column;

    open spec fn view(&self) -> Column {
        Column {
            name: self.column_name@,
            kind: self.kind@,
            position: self.position as int,
            data_type: self.data_type@,
            clustering_order: opt_text(self.clustering_order),
        }
    }
}

/// The values of a run of columns, one for one.
pub open spec fn columns_view(columns: Seq<ColumnMeta>) -> Seq<Column> {
    Seq::new(columns.len(), |i: int| columns[i]@)
}

impl View for DescribeTable {
    type V = TableSchema;

    open spec fn view(&self) -> TableSchema {
        TableSchema {
            keyspace: self.keyspace@,
            table: self.table@,
            partition_keys: self.partition_keys.deep_view(),
            clustering_keys: self.clustering_keys.deep_view(),
            columns: columns_view(self.columns@),
        }
    }
}

/// The kind name of a partition-key column.
pub open spec fn partition_kind() -> Seq<char> {
    "partition_key"@
}

/// The kind name of a clustering column.
pub open spec fn clustering_kind() -> Seq<char> {
    "clustering"@
}

/// The columns of one kind, in metadata order.
pub open spec fn of_kind(columns: Seq<Column>, kind: Seq<char>) -> Seq<Column> {
    columns.filter(|c: Column| c.kind == kind)
}

/// A run ordered by position with one more column put in: behind every
/// column whose position is not greater than its own.
pub open spec fn insert_by_position(sorted: Seq<Column>, column: Column) -> Seq<Column>
    decreases sorted.len(),
{
    if sorted.len() == 0 {
        seq![column]
    } else if sorted.last().position <= column.position {
        sorted.push(column)
    } else {
        insert_by_position(sorted.drop_last(), column).push(sorted.last())
    }
}

/// The columns in order of position; columns of equal position keep the
/// order they had.
pub open spec fn sort_by_position(columns: Seq<Column>) -> Seq<Column>
    decreases columns.len(),
{
    if columns.len() == 0 {
        Seq::empty()
    } else {
        insert_by_position(sort_by_position(columns.drop_last()), columns.last())
    }
}

/// The key columns of one kind, in order of position.
pub open spec fn key_columns(columns: Seq<Column>, kind: Seq<char>) -> Seq<Column> {
    sort_by_position(of_kind(columns, kind))
}

/// The names of a run of columns, one for one.
pub open spec fn column_names(columns: Seq<Column>) -> Seq<Seq<char>> {
    Seq::new(columns.len(), |i: int| columns[i].name)
}

/// The names of the key columns of one kind, in order of position.
pub open spec fn key_names(columns: Seq<Column>, kind: Seq<char>) -> Seq<Seq<char>> {
    column_names(key_columns(columns, kind))
}

/// A table's metadata is well formed when its key lists are the names of the
/// columns of the matching kind, in order of position.
pub open spec fn well_formed(schema: TableSchema) -> bool {
    &&& schema.partition_keys == key_names(schema.columns, partition_kind())
    &&& schema.clustering_keys == key_names(schema.columns, clustering_kind())
}

/// Whether positions never fall along the run.
pub open spec fn ordered(columns: Seq<Column>) -> bool {
    forall|i: int, j: int|
        0 <= i <= j < columns.len() ==> (#[trigger] columns[i]).position <= (
        #[trigger] columns[j]).position
}

/// Whether positions rise at every step along the run.
pub open spec fn strictly_ordered(columns: Seq<Column>) -> bool {
    forall|i: int, j: int|
        0 <= i < j < columns.len() ==> (#[trigger] columns[i]).position < (
        #[trigger] columns[j]).position
}

/// Whether no two columns of the run share a position.
pub open spec fn distinct_positions(columns: Seq<Column>) -> bool {
    forall|i: int, j: int|
        0 <= i < j < columns.len() ==> (#[trigger] columns[i]).position != (
        #[trigger] columns[j]).position
}

/// Putting a column into a run is the same as inserting it at the place
/// behind which every position is greater than its own and before which the
/// nearest position is not.
pub proof fn lemma_insert_place(sorted: Seq<Column>, column: Column, at: int)
    requires
        0 <= at <= sorted.len(),
        forall|k: int| at <= k < sorted.len() ==> (#[trigger] sorted[k]).position > column.position,
        at > 0 ==> sorted[at - 1].position <= column.position,
    ensures
        insert_by_position(sorted, column) == sorted.insert(at, column),
    decreases sorted.len(),
{
    if sorted.len() == 0 {
        assert(sorted.insert(at, column) =~= seq![column]);
    } else if at == sorted.len() {
        assert(sorted.insert(at, column) =~= sorted.push(column));
    } else {
        assert(sorted.last() == sorted[sorted.len() - 1]);
        lemma_insert_place(sorted.drop_last(), column, at);
        assert(sorted.insert(at, column) =~= sorted.drop_last().insert(at, column).push(
            sorted.last(),
        ));
    }
}

/// What putting a column into a run yields: one column more, the same
/// columns, ordered if the run was, strictly if no position occurs twice.
pub proof fn lemma_insert_by_position(sorted: Seq<Column>, column: Column)
    ensures
        insert_by_position(sorted, column).len() == sorted.len() + 1,
        insert_by_position(sorted, column).to_multiset() == sorted.to_multiset().insert(column),
        ordered(sorted) ==> ordered(insert_by_position(sorted, column)),
        strictly_ordered(sorted) && (forall|k: int|
            0 <= k < sorted.len() ==> (#[trigger] sorted[k]).position != column.position)
            ==> strictly_ordered(insert_by_position(sorted, column)),
        forall|k: int|
            0 <= k < insert_by_position(sorted, column).len() ==> (#[trigger] insert_by_position(
                sorted,
                column,
            )[k]) == column || sorted.contains(insert_by_position(sorted, column)[k]),
    decreases sorted.len(),
{
    broadcast use vstd::seq_lib::group_to_multiset_ensures;

    let out = insert_by_position(sorted, column);
    if sorted.len() == 0 {
        assert(sorted =~= Seq::empty());
        assert(out =~= Seq::<Column>::empty().push(column));
    } else if sorted.last().position <= column.position {
        assert forall|k: int| 0 <= k < out.len() implies (#[trigger] out[k]) == column
            || sorted.contains(out[k]) by {
            if k < sorted.len() {
                assert(out[k] == sorted[k]);
            }
        }
    } else {
        let front = sorted.drop_last();
        lemma_insert_by_position(front, column);
        let mid = insert_by_position(front, column);
        assert(sorted =~= front.push(sorted.last()));
        assert(out.to_multiset() =~= sorted.to_multiset().insert(column));
        assert forall|k: int| 0 <= k < out.len() implies (#[trigger] out[k]) == column
            || sorted.contains(out[k]) by {
            if k < mid.len() {
                assert(out[k] == mid[k]);
                if mid[k] != column {
                    assert(front.contains(mid[k]));
                    let w = choose|w: int| 0 <= w < front.len() && front[w] == mid[k];
                    assert(sorted[w] == mid[k]);
                }
            } else {
                assert(out[k] == sorted[sorted.len() - 1]);
            }
        }
        if ordered(sorted) {
            assert(ordered(front)) by {
                assert forall|i: int, j: int| 0 <= i <= j < front.len() implies (
                #[trigger] front[i]).position <= (#[trigger] front[j]).position by {
                    assert(front[i] == sorted[i] && front[j] == sorted[j]);
                }
            }
            assert forall|i: int, j: int| 0 <= i <= j < out.len() implies (
            #[trigger] out[i]).position <= (#[trigger] out[j]).position by {
                if j < mid.len() {
                    assert(out[i] == mid[i] && out[j] == mid[j]);
                } else if i < mid.len() {
                    assert(out[i] == mid[i]);
                    if mid[i] != column {
                        let w = choose|w: int| 0 <= w < front.len() && front[w] == mid[i];
                        assert(sorted[w] == mid[i]);
                        assert(sorted[w].position <= sorted[sorted.len() - 1].position);
                    }
                }
            }
        }
        if strictly_ordered(sorted) && (forall|k: int|
            0 <= k < sorted.len() ==> (#[trigger] sorted[k]).position != column.position) {
            assert(strictly_ordered(front)) by {
                assert forall|i: int, j: int| 0 <= i < j < front.len() implies (
                #[trigger] front[i]).position < (#[trigger] front[j]).position by {
                    assert(front[i] == sorted[i] && front[j] == sorted[j]);
                }
            }
            assert forall|k: int| 0 <= k < front.len() implies (#[trigger] front[k]).position
                != column.position by {
                assert(front[k] == sorted[k]);
            }
            assert forall|i: int, j: int| 0 <= i < j < out.len() implies (
            #[trigger] out[i]).position < (#[trigger] out[j]).position by {
                if j < mid.len() {
                    assert(out[i] == mid[i] && out[j] == mid[j]);
                } else {
                    assert(out[i] == mid[i]);
                    if mid[i] != column {
                        let w = choose|w: int| 0 <= w < front.len() && front[w] == mid[i];
                        assert(sorted[w] == mid[i]);
                        assert(sorted[w].position < sorted[sorted.len() - 1].position);
                    }
                }
            }
        }
    }
}

/// Ordering by position keeps the columns and puts them in order; where no
/// two of them share a position the order is strict.
pub proof fn lemma_sort_by_position(columns: Seq<Column>)
    ensures
        sort_by_position(columns).len() == columns.len(),
        sort_by_position(columns).to_multiset() == columns.to_multiset(),
        ordered(sort_by_position(columns)),
        distinct_positions(columns) ==> strictly_ordered(sort_by_position(columns)),
        forall|k: int|
            0 <= k < columns.len() ==> columns.contains(#[trigger] sort_by_position(columns)[k]),
    decreases columns.len(),
{
    broadcast use vstd::seq_lib::group_to_multiset_ensures;

    let out = sort_by_position(columns);
    if columns.len() == 0 {
        assert(columns =~= Seq::empty());
    } else {
        let front = columns.drop_last();
        let sorted = sort_by_position(front);
        lemma_sort_by_position(front);
        lemma_insert_by_position(sorted, columns.last());
        assert(columns =~= front.push(columns.last()));
        assert forall|k: int| 0 <= k < columns.len() implies columns.contains(
            #[trigger] out[k],
        ) by {
            if out[k] == columns.last() {
                assert(columns[columns.len() - 1] == out[k]);
            } else {
                assert(sorted.contains(out[k]));
                let w = choose|w: int| 0 <= w < sorted.len() && sorted[w] == out[k];
                assert(front.contains(sorted[w]));
                let u = choose|u: int| 0 <= u < front.len() && front[u] == sorted[w];
                assert(columns[u] == out[k]);
            }
        }
        if distinct_positions(columns) {
            assert(distinct_positions(front)) by {
                assert forall|i: int, j: int| 0 <= i < j < front.len() implies (
                #[trigger] front[i]).position != (#[trigger] front[j]).position by {
                    assert(front[i] == columns[i] && front[j] == columns[j]);
                }
            }
            assert forall|k: int| 0 <= k < sorted.len() implies (#[trigger] sorted[k]).position
                != columns.last().position by {
                assert(front.contains(sorted[k]));
                let u = choose|u: int| 0 <= u < front.len() && front[u] == sorted[k];
                assert(columns[u] == sorted[k]);
                assert(columns[u].position != columns[columns.len() - 1].position);
            }
        }
    }
}

/// The position of the last name equal to `target`, if there is one.
pub open spec fn last_position(names: Seq<Seq<char>>, target: Seq<char>) -> Option<int>
    decreases names.len(),
{
    if names.len() == 0 {
        None
    } else if names.last() == target {
        Some(names.len() - 1)
    } else {
        last_position(names.drop_last(), target)
    }
}

/// The text in the cell at `at`, where there is such a cell and it holds a
/// text.
pub open spec fn text_cell(row: Seq<Option<Typed>>, at: Option<int>) -> Option<Seq<char>> {
    match at {
        Some(i) => if 0 <= i < row.len() {
            match row[i] {
                Some(Typed::Ascii(s)) => Some(s),
                Some(Typed::Text(s)) => Some(s),
                _ => None,
            }
        } else {
            None
        },
        None => None,
    }
}

/// The number in the cell at `at`, where there is such a cell and it holds a
/// 32-bit integer.
pub open spec fn int_cell(row: Seq<Option<Typed>>, at: Option<int>) -> Option<int> {
    match at {
        Some(i) => if 0 <= i < row.len() {
            match row[i] {
                Some(Typed::Int(n)) => Some(n),
                _ => None,
            }
        } else {
            None
        },
        None => None,
    }
}

/// The text, or the empty text where there is none.
pub open spec fn text_or_empty(text: Option<Seq<char>>) -> Seq<char> {
    match text {
        Some(s) => s,
        None => Seq::empty(),
    }
}

/// The column that one row of the column metadata describes. A cell that is
/// missing or of another type counts as an empty text, as position zero, or
/// as no clustering order.
pub open spec fn column_of_row(names: Seq<Seq<char>>, row: Seq<Option<Typed>>) -> Column {
    Column {
        name: text_or_empty(text_cell(row, last_position(names, "column_name"@))),
        kind: text_or_empty(text_cell(row, last_position(names, "kind"@))),
        position: match int_cell(row, last_position(names, "position"@)) {
            Some(n) => n,
            None => 0,
        },
        data_type: text_or_empty(text_cell(row, last_position(names, "type"@))),
        clustering_order: text_cell(row, last_position(names, "clustering_order"@)),
    }
}

/// The columns that the rows of the column metadata describe, one for one.
pub open spec fn columns_of_rows(names: Seq<Seq<char>>, rows: Seq<Seq<Option<Typed>>>) -> Seq<
    Column,
> {
    Seq::new(rows.len(), |k: int| column_of_row(names, rows[k]))
}

/// The metadata of a table whose columns the rows describe.
pub open spec fn described(
    keyspace: Seq<char>,
    table: Seq<char>,
    names: Seq<Seq<char>>,
    rows: Seq<Seq<Option<Typed>>>,
) -> TableSchema {
    let columns = columns_of_rows(names, rows);
    TableSchema {
        keyspace,
        table,
        partition_keys: key_names(columns, partition_kind()),
        clustering_keys: key_names(columns, clustering_kind()),
        columns,
    }
}

/// The columns picked out by a list of positions.
pub open spec fn pick(columns: Seq<Column>, order: Seq<usize>) -> Seq<Column> {
    Seq::new(order.len(), |k: int| columns[order[k] as int])
}

/// The index as a mathematical integer.
pub open spec fn index_view(at: Option<usize>) -> Option<int> {
    match at {
        Some(i) => Some(i as int),
        None => None,
    }
}

impl ColumnMeta {
    /// Copies the column.
    pub fn duplicate(&self) -> (copy: ColumnMeta)
        ensures
            copy@ == self@,
    {
        ColumnMeta {
            column_name: self.column_name.clone(),
            kind: self.kind.clone(),
            position: self.position,
            data_type: self.data_type.clone(),
            clustering_order: copy_opt_text(&self.clustering_order),
        }
    }
}

/// Copies a list of columns.
pub fn copy_columns(columns: &Vec<ColumnMeta>) -> (out: Vec<ColumnMeta>)
    ensures
        columns_view(out@) == columns_view(columns@),
{
    let mut out: Vec<ColumnMeta> = Vec::new();
    let mut i: usize = 0;
    while i < columns.len()
        invariant
            i <= columns.len(),
            out@.len() == i,
            forall|j: int| 0 <= j < i ==> (#[trigger] out@[j])@ == columns@[j]@,
        decreases columns.len() - i,
    {
        out.push(columns[i].duplicate());
        i += 1;
    }
    assert(columns_view(out@) =~= columns_view(columns@));
    out
}

impl DescribeTable {
    /// Copies the metadata.
    pub fn duplicate(&self) -> (copy: DescribeTable)
        ensures
            copy@ == self@,
    {
        DescribeTable {
            keyspace: self.keyspace.clone(),
            table: self.table.clone(),
            partition_keys: copy_texts(&self.partition_keys),
            clustering_keys: copy_texts(&self.clustering_keys),
            columns: copy_columns(&self.columns),
        }
    }
}

/// Finds the position of the last name equal to `target`.
pub fn find_last(names: &Vec<String>, target: &str) -> (at: Option<usize>)
    ensures
        index_view(at) == last_position(names.deep_view(), target@),
{
    let mut at: Option<usize> = None;
    let mut i: usize = 0;
    assert(names.deep_view().take(0) =~= Seq::empty());
    while i < names.len()
        invariant
            i <= names.len(),
            index_view(at) == last_position(names.deep_view().take(i as int), target@),
        decreases names.len() - i,
    {
        proof {
            let next = names.deep_view().take(i as int + 1);
            assert(next.drop_last() =~= names.deep_view().take(i as int));
            assert(next.last() == names@[i as int]@);
        }
        if str_eq(names[i].as_str(), target) {
            at = Some(i);
        }
        i += 1;
    }
    assert(names.deep_view().take(names.len() as int) =~= names.deep_view());
    at
}

fn text_at(row: &Vec<Option<TypedValue>>, at: Option<usize>) -> (text: Option<String>)
    ensures
        opt_text(text) == text_cell(slots_view(row@), index_view(at)),
{
    match at {
        Some(i) => if i < row.len() {
            match &row[i] {
                Some(TypedValue::Ascii(s)) => Some(s.clone()),
                Some(TypedValue::Text(s)) => Some(s.clone()),
                _ => None,
            }
        } else {
            None
        },
        None => None,
    }
}

fn int_at(row: &Vec<Option<TypedValue>>, at: Option<usize>) -> (number: Option<i32>)
    ensures
        match number {
            Some(n) => int_cell(slots_view(row@), index_view(at)) == Some(n as int),
            None => int_cell(slots_view(row@), index_view(at)) is None,
        },
{
    match at {
        Some(i) => if i < row.len() {
            match &row[i] {
                Some(TypedValue::Int(n)) => Some(*n),
                _ => None,
            }
        } else {
            None
        },
        None => None,
    }
}

fn text_or_default(text: Option<String>) -> (out: String)
    ensures
        out@ == text_or_empty(opt_text(text)),
{
    match text {
        Some(s) => s,
        None => String::new(),
    }
}

/// Lists the positions of the columns of one kind, in order of the columns'
/// own positions.
fn key_order(columns: &Vec<ColumnMeta>, kind: &str) -> (order: Vec<usize>)
    ensures
        forall|k: int| 0 <= k < order@.len() ==> (#[trigger] order@[k]) < columns@.len(),
        pick(columns_view(columns@), order@) == key_columns(columns_view(columns@), kind@),
{
    let ghost all = columns_view(columns@);
    let mut order: Vec<usize> = Vec::new();
    let mut i: usize = 0;
    proof {
        assert(all.take(0) =~= Seq::empty());
        assert(of_kind(all.take(0), kind@) =~= Seq::empty()) by {
            reveal(Seq::filter);
        }
        assert(pick(all, order@) =~= key_columns(all.take(0), kind@));
    }
    while i < columns.len()
        invariant
            i <= columns.len(),
            all == columns_view(columns@),
            forall|k: int| 0 <= k < order@.len() ==> (#[trigger] order@[k]) < i,
            pick(all, order@) == key_columns(all.take(i as int), kind@),
        decreases columns.len() - i,
    {
        proof {
            let prev = all.take(i as int);
            let next = all.take(i as int + 1);
            assert(next.drop_last() =~= prev);
            assert(next.last() == all[i as int]);
            assert(of_kind(next, kind@) == if all[i as int].kind == kind@ {
                of_kind(prev, kind@).push(all[i as int])
            } else {
                of_kind(prev, kind@)
            }) by {
                reveal(Seq::filter);
            }
            if all[i as int].kind == kind@ {
                let kept = of_kind(prev, kind@).push(all[i as int]);
                assert(kept.drop_last() =~= of_kind(prev, kind@));
                assert(kept.last() == all[i as int]);
            }
        }
        if str_eq(columns[i].kind.as_str(), kind) {
            let position: i32 = columns[i].position;
            let mut at: usize = order.len();
            while at > 0 && columns[order[at - 1]].position > position
                invariant
                    at <= order@.len(),
                    i < columns.len(),
                    all == columns_view(columns@),
                    forall|k: int| 0 <= k < order@.len() ==> (#[trigger] order@[k]) < i,
                    forall|k: int|
                        at <= k < order@.len() ==> (#[trigger] pick(all, order@)[k]).position
                            > position,
                decreases at,
            {
                proof {
                    assert(pick(all, order@)[at - 1].position > position);
                }
                at -= 1;
            }
            proof {
                let sorted = pick(all, order@);
                if at > 0 {
                    assert(sorted[at - 1].position <= position);
                }
                lemma_insert_place(sorted, all[i as int], at as int);
            }
            let ghost before = order@;
            order.insert(at, i);
            proof {
                assert(pick(all, order@) =~= pick(all, before).insert(at as int, all[i as int]));
            }
        }
        i += 1;
    }
    proof {
        assert(all.take(columns.len() as int) =~= all);
    }
    order
}

/// Lists the names of the columns of one kind, in order of position.
pub fn key_list(columns: &Vec<ColumnMeta>, kind: &str) -> (names: Vec<String>)
    ensures
        names.deep_view() == key_names(columns_view(columns@), kind@),
{
    let order = key_order(columns, kind);
    let mut names: Vec<String> = Vec::new();
    let mut k: usize = 0;
    while k < order.len()
        invariant
            k <= order.len(),
            names@.len() == k,
            forall|j: int| 0 <= j < order@.len() ==> (#[trigger] order@[j]) < columns@.len(),
            forall|j: int| 0 <= j < k ==> (#[trigger] names@[j])@ == columns@[order@[j] as int].column_name@,
        decreases order.len() - k,
    {
        names.push(columns[order[k]].column_name.clone());
        k += 1;
    }
    proof {
        let picked = pick(columns_view(columns@), order@);
        assert(names.deep_view() =~= column_names(picked));
    }
    names
}

/// Builds a table's metadata from the rows that describe its columns, given
/// the column names of that result.
pub fn describe_from_rows(
    keyspace: &str,
    table: &str,
    names: &Vec<String>,
    rows: &Vec<Vec<Option<TypedValue>>>,
) -> (schema: DescribeTable)
    ensures
        schema@ == described(keyspace@, table@, names.deep_view(), rows_view(rows@)),
        well_formed(schema@),
{
    let at_name = find_last(names, "column_name");
    let at_kind = find_last(names, "kind");
    let at_position = find_last(names, "position");
    let at_type = find_last(names, "type");
    let at_order = find_last(names, "clustering_order");
    let mut columns: Vec<ColumnMeta> = Vec::new();
    let mut k: usize = 0;
    while k < rows.len()
        invariant
            k <= rows.len(),
            columns@.len() == k,
            index_view(at_name) == last_position(names.deep_view(), "column_name"@),
            index_view(at_kind) == last_position(names.deep_view(), "kind"@),
            index_view(at_position) == last_position(names.deep_view(), "position"@),
            index_view(at_type) == last_position(names.deep_view(), "type"@),
            index_view(at_order) == last_position(names.deep_view(), "clustering_order"@),
            forall|j: int|
                0 <= j < k ==> (#[trigger] columns@[j])@ == column_of_row(
                    names.deep_view(),
                    slots_view(rows@[j]@),
                ),
        decreases rows.len() - k,
    {
        let row = &rows[k];
        let position: i32 = match int_at(row, at_position) {
            Some(n) => n,
            None => 0,
        };
        let column = ColumnMeta {
            column_name: text_or_default(text_at(row, at_name)),
            kind: text_or_default(text_at(row, at_kind)),
            position,
            data_type: text_or_default(text_at(row, at_type)),
            clustering_order: text_at(row, at_order),
        };
        columns.push(column);
        k += 1;
    }
    proof {
        assert(columns_view(columns@) =~= columns_of_rows(names.deep_view(), rows_view(rows@)));
    }
    let partition_keys = key_list(&columns, "partition_key");
    let clustering_keys = key_list(&columns, "clustering");
    DescribeTable {
        keyspace: keyspace.to_owned(),
        table: table.to_owned(),
        partition_keys,
        clustering_keys,
        columns,
    }
}

/// In well-formed metadata each key list follows the positions of its
/// columns: positions never fall along a key list, and where no two columns
/// of that kind share a position they rise at every step, so that no column
/// stands twice in the list.
pub proof fn lemma_key_lists_ordered(schema: TableSchema, kind: Seq<char>)
    requires
        well_formed(schema),
        kind == partition_kind() || kind == clustering_kind(),
    ensures
        kind == partition_kind() ==> schema.partition_keys == column_names(
            key_columns(schema.columns, kind),
        ),
        kind == clustering_kind() ==> schema.clustering_keys == column_names(
            key_columns(schema.columns, kind),
        ),
        ordered(key_columns(schema.columns, kind)),
        distinct_positions(of_kind(schema.columns, kind)) ==> strictly_ordered(
            key_columns(schema.columns, kind),
        ),
        distinct_positions(of_kind(schema.columns, kind)) ==> key_columns(
            schema.columns,
            kind,
        ).no_duplicates(),
{
    lemma_sort_by_position(of_kind(schema.columns, kind));
    let keys = key_columns(schema.columns, kind);
    if distinct_positions(of_kind(schema.columns, kind)) {
        assert forall|i: int, j: int| 0 <= i < keys.len() && 0 <= j < keys.len() && i != j implies keys[i]
            != keys[j] by {
            if i < j {
                assert(keys[i].position < keys[j].position);
            } else {
                assert(keys[j].position < keys[i].position);
            }
        }
    }
}

} // verus!
