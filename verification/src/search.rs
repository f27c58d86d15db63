//! Searching the names of a cluster's tables, columns, types, views,
//! functions and aggregates for a pattern, without regard to case.

use crate::cql::{Typed, TypedValue};
use crate::encoding::{lowercase_text, to_lowercase};
use crate::json::{
    entry_value, lemma_key_index_found, members_view, Json, JsonValue, Member,
};
use crate::query::{Statement, StatementView};
use crate::text::{contains_run, contains_text};
use vstd::prelude::*;
use vstd::string::*;

verus! {

/// The kinds of named things that are searched.
#[derive(Debug, Clone, Copy, PartialEq, Eq)]
pub enum SchemaKind {
    Table,
    Column,
    Udt,
    View,
    Function,
    Aggregate,
}

/// One thing found: its kind, where it is, and its name.
#[derive(Debug, Clone, PartialEq)]
pub struct SearchHit {
    pub kind: SchemaKind,
    pub keyspace: String,
    /// The table, for a column.
    pub table: Option<String>,
    pub name: String,
}

/// The mathematical value of a [`SearchHit`].
pub struct Hit {
    pub kind: SchemaKind,
    pub keyspace: Seq<char>,
    pub table: Option<Seq<char>>,
    pub name: Seq<char>,
}

impl View for SearchHit {
    type V = Hit;

    open spec fn view(&self) -> Hit {
        Hit {
            kind: self.kind,
            keyspace: self.keyspace@,
            table: crate::db::opt_text(self.table),
            name: self.name@,
        }
    }
}

/// The hits of a list, one for one.
pub open spec fn hits_view(hits: Seq<SearchHit>) -> Seq<Hit> {
    Seq::new(hits.len(), |i: int| hits[i]@)
}

/// The word for a kind.
pub open spec fn kind_word(kind: SchemaKind) -> Seq<char> {
    match kind {
        SchemaKind::Table => "table"@,
        SchemaKind::Column => "column"@,
        SchemaKind::Udt => "udt"@,
        SchemaKind::View => "view"@,
        SchemaKind::Function => "function"@,
        SchemaKind::Aggregate => "aggregate"@,
    }
}

/// The text of the read that lists the things of a kind, in one keyspace
/// where `scoped`, else in all.
pub open spec fn search_text(kind: SchemaKind, scoped: bool) -> Seq<char> {
    match kind {
        SchemaKind::Table => if scoped {
            "SELECT keyspace_name, table_name FROM system_schema.tables WHERE keyspace_name = ?"@
        } else {
            "SELECT keyspace_name, table_name FROM system_schema.tables"@
        },
        SchemaKind::Column => if scoped {
            "SELECT keyspace_name, table_name, column_name FROM system_schema.columns WHERE keyspace_name = ?"@
        } else {
            "SELECT keyspace_name, table_name, column_name FROM system_schema.columns"@
        },
        SchemaKind::Udt => if scoped {
            "SELECT keyspace_name, type_name FROM system_schema.types WHERE keyspace_name = ?"@
        } else {
            "SELECT keyspace_name, type_name FROM system_schema.types"@
        },
        SchemaKind::View => if scoped {
            "SELECT keyspace_name, view_name FROM system_schema.views WHERE keyspace_name = ?"@
        } else {
            "SELECT keyspace_name, view_name FROM system_schema.views"@
        },
        SchemaKind::Function => if scoped {
            "SELECT keyspace_name, function_name FROM system_schema.functions WHERE keyspace_name = ?"@
        } else {
            "SELECT keyspace_name, function_name FROM system_schema.functions"@
        },
        SchemaKind::Aggregate => if scoped {
            "SELECT keyspace_name, aggregate_name FROM system_schema.aggregates WHERE keyspace_name = ?"@
        } else {
            "SELECT keyspace_name, aggregate_name FROM system_schema.aggregates"@
        },
    }
}

/// The values bound by a search read: the keyspace where there is one.
pub open spec fn search_values(keyspace: Option<Seq<char>>) -> Seq<Typed> {
    match keyspace {
        Some(k) => seq![Typed::Text(k)],
        None => Seq::empty(),
    }
}

/// Gives the text of the read that lists the things of a kind.
pub fn search_query_text(kind: SchemaKind, scoped: bool) -> (text: &'static str)
    ensures
        text@ == search_text(kind, scoped),
{
    match kind {
        SchemaKind::Table => if scoped {
            "SELECT keyspace_name, table_name FROM system_schema.tables WHERE keyspace_name = ?"
        } else {
            "SELECT keyspace_name, table_name FROM system_schema.tables"
        },
        SchemaKind::Column => if scoped {
            "SELECT keyspace_name, table_name, column_name FROM system_schema.columns WHERE keyspace_name = ?"
        } else {
            "SELECT keyspace_name, table_name, column_name FROM system_schema.columns"
        },
        SchemaKind::Udt => if scoped {
            "SELECT keyspace_name, type_name FROM system_schema.types WHERE keyspace_name = ?"
        } else {
            "SELECT keyspace_name, type_name FROM system_schema.types"
        },
        SchemaKind::View => if scoped {
            "SELECT keyspace_name, view_name FROM system_schema.views WHERE keyspace_name = ?"
        } else {
            "SELECT keyspace_name, view_name FROM system_schema.views"
        },
        SchemaKind::Function => if scoped {
            "SELECT keyspace_name, function_name FROM system_schema.functions WHERE keyspace_name = ?"
        } else {
            "SELECT keyspace_name, function_name FROM system_schema.functions"
        },
        SchemaKind::Aggregate => if scoped {
            "SELECT keyspace_name, aggregate_name FROM system_schema.aggregates WHERE keyspace_name = ?"
        } else {
            "SELECT keyspace_name, aggregate_name FROM system_schema.aggregates"
        },
    }
}

/// Builds the statement that lists the things of a kind, in the keyspace
/// given or in all.
pub fn search_statement(kind: SchemaKind, keyspace: Option<&str>) -> (statement: Statement)
    ensures
        statement@ == (StatementView {
            text: search_text(kind, keyspace is Some),
            values: search_values(
                match keyspace {
                    Some(k) => Some(k@),
                    None => None,
                },
            ),
        }),
{
    let mut values: Vec<TypedValue> = Vec::new();
    let text = match keyspace {
        Some(k) => {
            values.push(TypedValue::Text(k.to_owned()));
            String::from_str(search_query_text(kind, true))
        },
        None => String::from_str(search_query_text(kind, false)),
    };
    let statement = Statement { text, values };
    assert(statement@.values =~= search_values(
        match keyspace {
            Some(k) => Some(k@),
            None => None,
        },
    ));
    statement
}

/// Whether a name matches a pattern: the pattern in lower case stands
/// somewhere in the name in lower case.
pub open spec fn name_matches(pattern: Seq<char>, name: Seq<char>) -> bool {
    contains_run(lowercase_text(name), lowercase_text(pattern))
}

/// Decides whether a name matches a pattern.
pub fn matches_pattern(pattern: &str, name: &str) -> (found: bool)
    ensures
        found == name_matches(pattern@, name@),
{
    let needle = to_lowercase(pattern);
    let hay = to_lowercase(name);
    contains_text(hay.as_str(), needle.as_str())
}

/// The keyspace and name of each row, one for one.
pub open spec fn pairs_view(rows: Seq<(String, String)>) -> Seq<(Seq<char>, Seq<char>)> {
    Seq::new(rows.len(), |i: int| (rows[i].0@, rows[i].1@))
}

/// The keyspace, table and column of each row, one for one.
pub open spec fn triples_view(rows: Seq<(String, String, String)>) -> Seq<
    (Seq<char>, Seq<char>, Seq<char>),
> {
    Seq::new(rows.len(), |i: int| (rows[i].0@, rows[i].1@, rows[i].2@))
}

/// The columns found: those whose own name matches, in the rows' order.
pub open spec fn column_hits(
    pattern: Seq<char>,
    rows: Seq<(Seq<char>, Seq<char>, Seq<char>)>,
) -> Seq<Hit>
    decreases rows.len(),
{
    if rows.len() == 0 {
        Seq::empty()
    } else {
        let rest = column_hits(pattern, rows.drop_last());
        let (keyspace, table, name) = rows.last();
        if name_matches(pattern, name) {
            rest.push(Hit { kind: SchemaKind::Column, keyspace, table: Some(table), name })
        } else {
            rest
        }
    }
}

/// The things of a kind found: those whose own name matches, in the rows'
/// order.
pub open spec fn named_hits(
    kind: SchemaKind,
    pattern: Seq<char>,
    rows: Seq<(Seq<char>, Seq<char>)>,
) -> Seq<Hit>
    decreases rows.len(),
{
    if rows.len() == 0 {
        Seq::empty()
    } else {
        let rest = named_hits(kind, pattern, rows.drop_last());
        let (keyspace, name) = rows.last();
        if name_matches(pattern, name) {
            rest.push(Hit { kind, keyspace, table: None, name })
        } else {
            rest
        }
    }
}

/// The tables found: those whose own name matches, in the rows' order. The
/// keyspace's name plays no part in the match.
pub open spec fn table_hits(pattern: Seq<char>, rows: Seq<(Seq<char>, Seq<char>)>) -> Seq<Hit> {
    named_hits(SchemaKind::Table, pattern, rows)
}

/// Picks the tables whose name matches the pattern.
pub fn search_tables(pattern: &str, rows: &Vec<(String, String)>) -> (hits: Vec<SearchHit>)
    ensures
        hits_view(hits@) == table_hits(pattern@, pairs_view(rows@)),
{
    search_named(SchemaKind::Table, pattern, rows)
}

/// Picks the columns that match the pattern.
pub fn search_columns(pattern: &str, rows: &Vec<(String, String, String)>) -> (hits: Vec<
    SearchHit,
>)
    ensures
        hits_view(hits@) == column_hits(pattern@, triples_view(rows@)),
{
    let ghost all = triples_view(rows@);
    let mut hits: Vec<SearchHit> = Vec::new();
    let mut i: usize = 0;
    assert(all.take(0) =~= Seq::empty());
    assert(hits_view(hits@) =~= column_hits(pattern@, all.take(0)));
    while i < rows.len()
        invariant
            i <= rows.len(),
            all == triples_view(rows@),
            hits_view(hits@) == column_hits(pattern@, all.take(i as int)),
        decreases rows.len() - i,
    {
        proof {
            let next = all.take(i as int + 1);
            assert(next.drop_last() =~= all.take(i as int));
            assert(next.last() == all[i as int]);
        }
        let row = &rows[i];
        if matches_pattern(pattern, row.2.as_str()) {
            let ghost before = hits_view(hits@);
            let hit = SearchHit {
                kind: SchemaKind::Column,
                keyspace: row.0.clone(),
                table: Some(row.1.clone()),
                name: row.2.clone(),
            };
            let ghost added = hit@;
            hits.push(hit);
            assert(hits_view(hits@) =~= before.push(added));
        }
        i += 1;
    }
    assert(all.take(rows.len() as int) =~= all);
    hits
}

/// Picks the things of a kind whose name matches the pattern.
pub fn search_named(kind: SchemaKind, pattern: &str, rows: &Vec<(String, String)>) -> (hits: Vec<
    SearchHit,
>)
    ensures
        hits_view(hits@) == named_hits(kind, pattern@, pairs_view(rows@)),
{
    let ghost all = pairs_view(rows@);
    let mut hits: Vec<SearchHit> = Vec::new();
    let mut i: usize = 0;
    assert(all.take(0) =~= Seq::empty());
    assert(hits_view(hits@) =~= named_hits(kind, pattern@, all.take(0)));
    while i < rows.len()
        invariant
            i <= rows.len(),
            all == pairs_view(rows@),
            hits_view(hits@) == named_hits(kind, pattern@, all.take(i as int)),
        decreases rows.len() - i,
    {
        proof {
            let next = all.take(i as int + 1);
            assert(next.drop_last() =~= all.take(i as int));
            assert(next.last() == all[i as int]);
        }
        let row = &rows[i];
        if matches_pattern(pattern, row.1.as_str()) {
            let ghost before = hits_view(hits@);
            let hit = SearchHit {
                kind,
                keyspace: row.0.clone(),
                table: None,
                name: row.1.clone(),
            };
            let ghost added = hit@;
            hits.push(hit);
            assert(hits_view(hits@) =~= before.push(added));
        }
        i += 1;
    }
    assert(all.take(rows.len() as int) =~= all);
    hits
}

/// The record of a hit: its kind's word under `kind`, then `keyspace`, then
/// `table` for a column, then `name`.
pub open spec fn hit_entries(hit: Hit) -> Seq<(Seq<char>, Json)> {
    let head = seq![
        ("kind"@, Json::Text(kind_word(hit.kind))),
        ("keyspace"@, Json::Text(hit.keyspace)),
    ];
    match hit.table {
        Some(table) => head.push(("table"@, Json::Text(table))).push(
            ("name"@, Json::Text(hit.name)),
        ),
        None => head.push(("name"@, Json::Text(hit.name))),
    }
}

/// Gives the word for a kind.
pub fn kind_name(kind: SchemaKind) -> (word: &'static str)
    ensures
        word@ == kind_word(kind),
{
    match kind {
        SchemaKind::Table => "table",
        SchemaKind::Column => "column",
        SchemaKind::Udt => "udt",
        SchemaKind::View => "view",
        SchemaKind::Function => "function",
        SchemaKind::Aggregate => "aggregate",
    }
}

/// Writes a hit as a record.
pub fn hit_record(hit: &SearchHit) -> (record: Vec<Member>)
    ensures
        members_view(record@) == hit_entries(hit@),
{
    let mut record: Vec<Member> = Vec::new();
    record.push(
        Member {
            name: String::from_str("kind"),
            value: JsonValue::Text(String::from_str(kind_name(hit.kind))),
        },
    );
    record.push(
        Member { name: String::from_str("keyspace"), value: JsonValue::Text(hit.keyspace.clone()) },
    );
    match &hit.table {
        Some(table) => {
            record.push(
                Member { name: String::from_str("table"), value: JsonValue::Text(table.clone()) },
            );
        },
        None => {},
    }
    record.push(Member { name: String::from_str("name"), value: JsonValue::Text(hit.name.clone()) });
    assert(members_view(record@) =~= hit_entries(hit@));
    record
}

/// Every thing found by its name is of the kind searched, names no table of
/// its own, has a name that matches the pattern, and stands in one of the
/// rows with the keyspace it is reported in; nothing is found more often
/// than there are rows.
pub proof fn lemma_named_hits(
    kind: SchemaKind,
    pattern: Seq<char>,
    rows: Seq<(Seq<char>, Seq<char>)>,
)
    ensures
        named_hits(kind, pattern, rows).len() <= rows.len(),
        forall|i: int|
            0 <= i < named_hits(kind, pattern, rows).len() ==> {
                let hit = #[trigger] named_hits(kind, pattern, rows)[i];
                &&& hit.kind == kind
                &&& hit.table is None
                &&& name_matches(pattern, hit.name)
                &&& rows.contains((hit.keyspace, hit.name))
            },
    decreases rows.len(),
{
    if rows.len() > 0 {
        let front = rows.drop_last();
        lemma_named_hits(kind, pattern, front);
        let found = named_hits(kind, pattern, rows);
        let before = named_hits(kind, pattern, front);
        assert forall|i: int| 0 <= i < found.len() implies ({
            let hit = #[trigger] found[i];
            &&& hit.kind == kind
            &&& hit.table is None
            &&& name_matches(pattern, hit.name)
            &&& rows.contains((hit.keyspace, hit.name))
        }) by {
            if i < before.len() {
                assert(found[i] == before[i]);
                let hit = before[i];
                let k = choose|k: int| 0 <= k < front.len() && front[k] == (hit.keyspace, hit.name);
                assert(rows[k] == front[k]);
            } else {
                assert(rows[rows.len() - 1] == rows.last());
            }
        }
    }
}

/// Every table found is reported as a table, has a name that matches the
/// pattern, and stands in one of the rows with the keyspace it is reported
/// in. A table whose name does not match is not found, whatever its
/// keyspace is called.
pub proof fn lemma_table_hits(pattern: Seq<char>, rows: Seq<(Seq<char>, Seq<char>)>)
    ensures
        table_hits(pattern, rows).len() <= rows.len(),
        forall|i: int|
            0 <= i < table_hits(pattern, rows).len() ==> {
                let hit = #[trigger] table_hits(pattern, rows)[i];
                &&& hit.kind == SchemaKind::Table
                &&& hit.table is None
                &&& name_matches(pattern, hit.name)
                &&& rows.contains((hit.keyspace, hit.name))
            },
        (forall|k: int| 0 <= k < rows.len() ==> !name_matches(pattern, (#[trigger] rows[k]).1))
            ==> table_hits(pattern, rows).len() == 0,
{
    lemma_named_hits(SchemaKind::Table, pattern, rows);
    let found = table_hits(pattern, rows);
    if forall|k: int| 0 <= k < rows.len() ==> !name_matches(pattern, (#[trigger] rows[k]).1) {
        if found.len() > 0 {
            let hit = found[0];
            let k = choose|k: int| 0 <= k < rows.len() && rows[k] == (hit.keyspace, hit.name);
            assert(!name_matches(pattern, rows[k].1));
        }
    }
}

/// Every column found is reported as a column with its table, has a name
/// that matches the pattern, and stands in one of the rows with the keyspace
/// and table it is reported in.
pub proof fn lemma_column_hits(pattern: Seq<char>, rows: Seq<(Seq<char>, Seq<char>, Seq<char>)>)
    ensures
        column_hits(pattern, rows).len() <= rows.len(),
        forall|i: int|
            0 <= i < column_hits(pattern, rows).len() ==> {
                let hit = #[trigger] column_hits(pattern, rows)[i];
                &&& hit.kind == SchemaKind::Column
                &&& hit.table matches Some(table)
                &&& name_matches(pattern, hit.name)
                &&& rows.contains((hit.keyspace, table, hit.name))
            },
    decreases rows.len(),
{
    if rows.len() > 0 {
        let front = rows.drop_last();
        lemma_column_hits(pattern, front);
        let found = column_hits(pattern, rows);
        let before = column_hits(pattern, front);
        assert forall|i: int| 0 <= i < found.len() implies ({
            let hit = #[trigger] found[i];
            &&& hit.kind == SchemaKind::Column
            &&& hit.table matches Some(table)
            &&& name_matches(pattern, hit.name)
            &&& rows.contains((hit.keyspace, table, hit.name))
        }) by {
            if i < before.len() {
                assert(found[i] == before[i]);
                let hit = before[i];
                let table = hit.table->0;
                let k = choose|k: int|
                    0 <= k < front.len() && front[k] == (hit.keyspace, table, hit.name);
                assert(rows[k] == front[k]);
            } else {
                assert(rows[rows.len() - 1] == rows.last());
            }
        }
    }
}

/// The record of a hit gives its kind's word under `kind`, its keyspace
/// under `keyspace` and its name under `name`; it has an entry `table`
/// exactly where the hit names a table, which is so for columns.
pub proof fn lemma_hit_record(hit: Hit)
    ensures
        entry_value(hit_entries(hit), "kind"@) == Some(Json::Text(kind_word(hit.kind))),
        entry_value(hit_entries(hit), "keyspace"@) == Some(Json::Text(hit.keyspace)),
        entry_value(hit_entries(hit), "name"@) == Some(Json::Text(hit.name)),
        entry_value(hit_entries(hit), "table"@) == match hit.table {
            Some(table) => Some(Json::Text(table)),
            None => None,
        },
{
    reveal_strlit("kind");
    reveal_strlit("keyspace");
    reveal_strlit("table");
    reveal_strlit("name");
    assert("kind"@[0] != "name"@[0]);
    assert("kind"@.len() != "keyspace"@.len());
    assert("kind"@.len() != "table"@.len());
    assert("keyspace"@.len() != "table"@.len());
    assert("keyspace"@.len() != "name"@.len());
    assert("table"@.len() != "name"@.len());
    let entries = hit_entries(hit);
    lemma_key_index_found(entries, "kind"@, 0);
    lemma_key_index_found(entries, "keyspace"@, 1);
    match hit.table {
        Some(_) => {
            lemma_key_index_found(entries, "table"@, 2);
            lemma_key_index_found(entries, "name"@, 3);
        },
        None => {
            lemma_key_index_found(entries, "name"@, 2);
            lemma_key_index_found(entries, "table"@, 3);
        },
    }
}

} // verus!
