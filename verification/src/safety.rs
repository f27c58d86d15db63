//! What holds of every statement that the builder writes: its text is made of
//! identifier characters and a few marks only, so that nothing a caller
//! supplies can change its structure, and it holds one bind marker for each
//! value bound.

use crate::ident::{is_ident_char, is_valid_identifier};
use crate::json::Json;
use crate::query::{
    all_valid, direction_word, entry_names, filter_fault, filters_outcome, limit_clause,
    order_columns, order_outcome, order_terms, partition_clause, partition_fault,
    partition_outcome, predicates, sample_outcome, select_all_text, select_outcome,
};
use crate::text::{decimal, digit_char, join};
use vstd::prelude::*;

verus! {

/// The characters that a statement's text may hold: those of identifiers,
/// the space, and the marks `,` `.` `=` `?` `*`.
pub open spec fn is_statement_char(c: char) -> bool {
    is_ident_char(c) || c == ' ' || c == ',' || c == '.' || c == '=' || c == '?' || c == '*'
}

/// Whether a text holds statement characters only.
pub open spec fn plain_text(text: Seq<char>) -> bool {
    forall|i: int| 0 <= i < text.len() ==> is_statement_char(#[trigger] text[i])
}

/// Whether a text holds statement characters only, and no bind marker.
pub open spec fn fixed_text(text: Seq<char>) -> bool {
    forall|i: int|
        0 <= i < text.len() ==> is_statement_char(#[trigger] text[i]) && text[i] != '?'
}

/// The number of bind markers in a text.
pub open spec fn markers(text: Seq<char>) -> nat
    decreases text.len(),
{
    if text.len() == 0 {
        0
    } else {
        markers(text.drop_last()) + if text.last() == '?' {
            1nat
        } else {
            0nat
        }
    }
}

/// The markers of two texts written one after the other are those of both.
pub proof fn lemma_markers_concat(a: Seq<char>, b: Seq<char>)
    ensures
        markers(a + b) == markers(a) + markers(b),
    decreases b.len(),
{
    if b.len() == 0 {
        assert(a + b =~= a);
    } else {
        assert((a + b).drop_last() =~= a + b.drop_last());
        assert((a + b).last() == b.last());
        lemma_markers_concat(a, b.drop_last());
    }
}

/// A text without bind markers is plain and counts none.
pub proof fn lemma_fixed(text: Seq<char>)
    requires
        fixed_text(text),
    ensures
        plain_text(text),
        markers(text) == 0,
    decreases text.len(),
{
    if text.len() > 0 {
        let front = text.drop_last();
        assert forall|i: int| 0 <= i < front.len() implies is_statement_char(#[trigger] front[i])
            && front[i] != '?' by {
            assert(front[i] == text[i]);
        }
        lemma_fixed(front);
        assert(text.last() == text[text.len() - 1]);
    }
}

/// Two texts without bind markers, written one after the other, have none.
pub proof fn lemma_fixed_concat(a: Seq<char>, b: Seq<char>)
    requires
        fixed_text(a),
        fixed_text(b),
    ensures
        fixed_text(a + b),
{
    assert forall|i: int| 0 <= i < (a + b).len() implies is_statement_char(#[trigger] (a + b)[i])
        && (a + b)[i] != '?' by {
        if i < a.len() {
            assert((a + b)[i] == a[i]);
        } else {
            assert((a + b)[i] == b[i - a.len()]);
        }
    }
}

/// Two plain texts written one after the other are plain.
pub proof fn lemma_plain_concat(a: Seq<char>, b: Seq<char>)
    requires
        plain_text(a),
        plain_text(b),
    ensures
        plain_text(a + b),
{
    assert forall|i: int| 0 <= i < (a + b).len() implies is_statement_char(#[trigger] (a + b)[i]) by {
        if i < a.len() {
            assert((a + b)[i] == a[i]);
        } else {
            assert((a + b)[i] == b[i - a.len()]);
        }
    }
}

/// A valid identifier holds no bind marker and only statement characters.
pub proof fn lemma_identifier_fixed(name: Seq<char>)
    requires
        is_valid_identifier(name),
    ensures
        fixed_text(name),
{
}

/// A decimal numeral holds digits only.
pub proof fn lemma_decimal_fixed(n: nat)
    ensures
        fixed_text(decimal(n)),
    decreases n,
{
    if n >= 10 {
        lemma_decimal_fixed(n / 10);
        let front = decimal(n / 10);
        let last = digit_char(n % 10);
        assert forall|i: int| 0 <= i < decimal(n).len() implies is_statement_char(
            #[trigger] decimal(n)[i],
        ) && decimal(n)[i] != '?' by {
            if i < front.len() {
                assert(decimal(n)[i] == front[i]);
            }
        }
    }
}

/// Texts without bind markers, joined by such a text, have none.
pub proof fn lemma_join_fixed(parts: Seq<Seq<char>>, sep: Seq<char>)
    requires
        forall|i: int| 0 <= i < parts.len() ==> fixed_text(#[trigger] parts[i]),
        fixed_text(sep),
    ensures
        fixed_text(join(parts, sep)),
    decreases parts.len(),
{
    if parts.len() > 1 {
        let front = parts.drop_last();
        assert forall|i: int| 0 <= i < front.len() implies fixed_text(#[trigger] front[i]) by {
            assert(front[i] == parts[i]);
        }
        lemma_join_fixed(front, sep);
        lemma_fixed_concat(join(front, sep), sep);
        assert(parts.last() == parts[parts.len() - 1]);
        lemma_fixed_concat(join(front, sep) + sep, parts.last());
    } else if parts.len() == 1 {
        assert(fixed_text(parts[0]));
    }
}

/// The fixed words of statements hold no bind marker; ` = ?` holds one.
pub proof fn lemma_keywords()
    ensures
        fixed_text("SELECT "@),
        fixed_text("SELECT * FROM "@),
        fixed_text(", "@),
        fixed_text(" FROM "@),
        fixed_text("."@),
        fixed_text(" WHERE "@),
        fixed_text(" AND "@),
        fixed_text(" ORDER BY "@),
        fixed_text(" "@),
        fixed_text("ASC"@),
        fixed_text("DESC"@),
        fixed_text(" LIMIT "@),
        plain_text(" = ?"@),
        markers(" = ?"@) == 1,
{
    reveal_strlit("SELECT ");
    reveal_strlit("SELECT * FROM ");
    reveal_strlit(", ");
    reveal_strlit(" FROM ");
    reveal_strlit(".");
    reveal_strlit(" WHERE ");
    reveal_strlit(" AND ");
    reveal_strlit(" ORDER BY ");
    reveal_strlit(" ");
    reveal_strlit("ASC");
    reveal_strlit("DESC");
    reveal_strlit(" LIMIT ");
    reveal_strlit(" = ?");
    let mark = " = ?"@;
    assert(mark =~= seq![' ', '=', ' '].push('?'));
    assert(mark.drop_last() =~= seq![' ', '=', ' ']);
    assert(fixed_text(seq![' ', '=', ' ']));
    lemma_fixed(seq![' ', '=', ' ']);
}

/// The predicates for valid column names, joined by ` AND `, are plain and
/// hold one bind marker for each column.
pub proof fn lemma_predicates(columns: Seq<Seq<char>>)
    requires
        all_valid(columns),
        columns.len() > 0,
    ensures
        plain_text(join(predicates(columns), " AND "@)),
        markers(join(predicates(columns), " AND "@)) == columns.len(),
    decreases columns.len(),
{
    lemma_keywords();
    let parts = predicates(columns);
    let last = columns.last();
    assert(last == columns[columns.len() - 1]);
    lemma_identifier_fixed(last);
    lemma_fixed(last);
    lemma_plain_concat(last, " = ?"@);
    lemma_markers_concat(last, " = ?"@);
    assert(parts.last() == last + " = ?"@);
    if columns.len() > 1 {
        let front = columns.drop_last();
        assert forall|i: int| 0 <= i < front.len() implies is_valid_identifier(
            #[trigger] front[i],
        ) by {
            assert(front[i] == columns[i]);
        }
        lemma_predicates(front);
        assert(parts.drop_last() =~= predicates(front));
        let head = join(predicates(front), " AND "@);
        lemma_fixed(" AND "@);
        lemma_plain_concat(head, " AND "@);
        lemma_markers_concat(head, " AND "@);
        lemma_plain_concat(head + " AND "@, parts.last());
        lemma_markers_concat(head + " AND "@, parts.last());
    } else {
        assert(parts[0] == parts.last());
    }
}

/// Filters that can all be used have valid column names.
pub proof fn lemma_usable_filters(filters: Seq<(Seq<char>, Json)>)
    requires
        filter_fault(filters) is None,
    ensures
        all_valid(entry_names(filters)),
    decreases filters.len(),
{
    if filters.len() > 0 {
        let rest = filters.drop_first();
        lemma_usable_filters(rest);
        assert forall|i: int| 0 <= i < filters.len() implies is_valid_identifier(
            #[trigger] entry_names(filters)[i],
        ) by {
            if i > 0 {
                assert(entry_names(rest)[i - 1] == entry_names(filters)[i]);
            }
        }
    }
}

/// Partition keys that can all be used have valid names.
pub proof fn lemma_usable_keys(keys: Seq<Seq<char>>, entries: Seq<(Seq<char>, Json)>)
    requires
        partition_fault(keys, entries) is None,
    ensures
        all_valid(keys),
    decreases keys.len(),
{
    if keys.len() > 0 {
        let rest = keys.drop_first();
        lemma_usable_keys(rest, entries);
        assert forall|i: int| 0 <= i < keys.len() implies is_valid_identifier(#[trigger] keys[i]) by {
            if i > 0 {
                assert(rest[i - 1] == keys[i]);
            }
        }
    }
}

/// A filter clause that is built is plain and holds one bind marker for
/// each value bound.
pub proof fn lemma_filter_clause_safe(filters: Seq<(Seq<char>, Json)>)
    ensures
        filters_outcome(filters) matches Ok((clause, values)) ==> plain_text(clause) && markers(
            clause,
        ) == values.len(),
{
    if filter_fault(filters) is None {
        let names = entry_names(filters);
        lemma_usable_filters(filters);
        lemma_keywords();
        if names.len() > 0 {
            lemma_predicates(names);
            lemma_fixed(" WHERE "@);
            lemma_plain_concat(" WHERE "@, join(predicates(names), " AND "@));
            lemma_markers_concat(" WHERE "@, join(predicates(names), " AND "@));
        }
    }
}

/// An ordering clause that is built holds no bind marker.
pub proof fn lemma_order_clause_safe(order: Seq<(Seq<char>, Seq<char>)>)
    ensures
        order_outcome(order) matches Ok(clause) ==> fixed_text(clause),
{
    if all_valid(order_columns(order)) {
        lemma_keywords();
        if order.len() > 0 {
            let terms = order_terms(order);
            assert forall|i: int| 0 <= i < terms.len() implies fixed_text(#[trigger] terms[i]) by {
                assert(is_valid_identifier(order_columns(order)[i]));
                lemma_identifier_fixed(order[i].0);
                lemma_fixed_concat(order[i].0, " "@);
                lemma_fixed_concat(order[i].0 + " "@, direction_word(order[i].1));
            }
            lemma_join_fixed(terms, ", "@);
            lemma_fixed_concat(" ORDER BY "@, join(terms, ", "@));
        }
    }
}

/// Every statement that reads given columns is plain and holds one bind
/// marker for each value bound.
pub proof fn lemma_select_statement_safe(
    keyspace: Seq<char>,
    table: Seq<char>,
    columns: Seq<Seq<char>>,
    limit: Option<nat>,
    filters: Seq<(Seq<char>, Json)>,
    order: Seq<(Seq<char>, Seq<char>)>,
)
    ensures
        select_outcome(keyspace, table, columns, limit, filters, order) matches Ok(statement)
            ==> plain_text(statement.text) && markers(statement.text) == statement.values.len(),
{
    if select_outcome(keyspace, table, columns, limit, filters, order) is Ok {
        lemma_keywords();
        lemma_filter_clause_safe(filters);
        lemma_order_clause_safe(order);
        let filter_part = filters_outcome(filters)->Ok_0.0;
        let order_part = order_outcome(order)->Ok_0;
        lemma_identifier_fixed(keyspace);
        lemma_identifier_fixed(table);
        assert forall|i: int| 0 <= i < columns.len() implies fixed_text(#[trigger] columns[i]) by {
            lemma_identifier_fixed(columns[i]);
        }
        lemma_join_fixed(columns, ", "@);
        match limit {
            Some(n) => {
                lemma_decimal_fixed(n);
                lemma_fixed_concat(" LIMIT "@, decimal(n));
            },
            None => {},
        }
        let a = "SELECT "@ + join(columns, ", "@);
        lemma_fixed_concat("SELECT "@, join(columns, ", "@));
        let b = a + " FROM "@;
        lemma_fixed_concat(a, " FROM "@);
        let c = b + keyspace;
        lemma_fixed_concat(b, keyspace);
        let d = c + "."@;
        lemma_fixed_concat(c, "."@);
        let e = d + table;
        lemma_fixed_concat(d, table);
        lemma_fixed(e);
        let f = e + filter_part;
        lemma_plain_concat(e, filter_part);
        lemma_markers_concat(e, filter_part);
        lemma_fixed(order_part);
        let g = f + order_part;
        lemma_plain_concat(f, order_part);
        lemma_markers_concat(f, order_part);
        lemma_fixed(limit_clause(limit));
        lemma_plain_concat(g, limit_clause(limit));
        lemma_markers_concat(g, limit_clause(limit));
    }
}

/// The text of a read of all columns is plain, and holds as many bind
/// markers as its filter part.
proof fn lemma_select_all_text(
    keyspace: Seq<char>,
    table: Seq<char>,
    filter_part: Seq<char>,
    limit: nat,
)
    requires
        is_valid_identifier(keyspace),
        is_valid_identifier(table),
        plain_text(filter_part),
    ensures
        plain_text(select_all_text(keyspace, table, filter_part, limit)),
        markers(select_all_text(keyspace, table, filter_part, limit)) == markers(filter_part),
{
    lemma_keywords();
    lemma_identifier_fixed(keyspace);
    lemma_identifier_fixed(table);
    lemma_decimal_fixed(limit);
    let a = "SELECT * FROM "@ + keyspace;
    lemma_fixed_concat("SELECT * FROM "@, keyspace);
    let b = a + "."@;
    lemma_fixed_concat(a, "."@);
    let c = b + table;
    lemma_fixed_concat(b, table);
    lemma_fixed(c);
    let d = c + filter_part;
    lemma_plain_concat(c, filter_part);
    lemma_markers_concat(c, filter_part);
    lemma_fixed(" LIMIT "@);
    let e = d + " LIMIT "@;
    lemma_plain_concat(d, " LIMIT "@);
    lemma_markers_concat(d, " LIMIT "@);
    lemma_fixed(decimal(limit));
    lemma_plain_concat(e, decimal(limit));
    lemma_markers_concat(e, decimal(limit));
}

/// Every statement that reads all columns of some rows is plain and holds
/// one bind marker for each value bound.
pub proof fn lemma_sample_statement_safe(
    keyspace: Seq<char>,
    table: Seq<char>,
    limit: nat,
    filters: Seq<(Seq<char>, Json)>,
)
    ensures
        sample_outcome(keyspace, table, limit, filters) matches Ok(statement) ==> plain_text(
            statement.text,
        ) && markers(statement.text) == statement.values.len(),
{
    if sample_outcome(keyspace, table, limit, filters) is Ok {
        lemma_filter_clause_safe(filters);
        let filter_part = filters_outcome(filters)->Ok_0.0;
        lemma_select_all_text(keyspace, table, filter_part, limit);
    }
}

/// Every statement that reads one partition is plain and holds one bind
/// marker for each partition key, whose values it binds in the keys' order.
pub proof fn lemma_partition_statement_safe(
    partition_keys: Seq<Seq<char>>,
    keyspace: Seq<char>,
    table: Seq<char>,
    entries: Seq<(Seq<char>, Json)>,
    limit: nat,
)
    ensures
        partition_outcome(partition_keys, keyspace, table, entries, limit) matches Ok(statement)
            ==> plain_text(statement.text) && markers(statement.text) == statement.values.len()
            && statement.values.len() == partition_keys.len(),
{
    if partition_outcome(partition_keys, keyspace, table, entries, limit) is Ok {
        lemma_keywords();
        lemma_usable_keys(partition_keys, entries);
        let joined = join(predicates(partition_keys), " AND "@);
        if partition_keys.len() > 0 {
            lemma_predicates(partition_keys);
        } else {
            assert(joined =~= Seq::<char>::empty());
        }
        lemma_fixed(" WHERE "@);
        lemma_plain_concat(" WHERE "@, joined);
        lemma_markers_concat(" WHERE "@, joined);
        lemma_select_all_text(keyspace, table, partition_clause(partition_keys), limit);
    }
}

} // verus!
