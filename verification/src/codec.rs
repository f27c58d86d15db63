//! The value codec: scalars of a request become typed values to bind, and
//! typed values of a result become generic values.

use crate::cql::{
    entries_view, rows_view, slot_view, slots_view, typed_seq, MapEntry, Typed, TypedEntry,
    TypedValue,
};
use crate::encoding::{base64_encode, base64_text, timeuuid_to_text, uuid_text, uuid_to_text};
use crate::json::{
    distinct_keys, finite_bits, has_key, is_finite_bits, lemma_key_index, lemma_with_entry,
    members_view, set_member, values_view, with_entry, Json, JsonValue, Member,
};
use crate::text::{signed_decimal, signed_decimal_text};
use vstd::prelude::*;
use vstd::string::*;

verus! {

/// Whether a generic value is a scalar that can be bound: a text, a boolean
/// or a number.
pub open spec fn is_scalar(value: Json) -> bool {
    value is Text || value is Bool || value is Int || value is Float || value is Large
}

/// The typed value that a scalar is bound as: a text as text, a boolean as
/// boolean, an integer as a 64-bit integer where that can hold it, any other
/// number as a double. What it gives for a value that is no scalar is of no
/// significance.
pub open spec fn query_value(value: Json) -> Typed {
    match value {
        Json::Text(s) => Typed::Text(s),
        Json::Bool(b) => Typed::Boolean(b),
        Json::Int(i) => Typed::BigInt(i),
        Json::Float(bits) => Typed::Double(bits),
        Json::Large { value, nearest } => if value <= i64::MAX {
            Typed::BigInt(value as int)
        } else {
            Typed::Double(nearest)
        },
        _ => Typed::Boolean(false),
    }
}

/// The text that stands for a map key: a text key as it is, a UUID in its
/// canonical form, an integer as its decimal numeral, any other key as the
/// driver's debug text of it.
pub open spec fn key_text(entry: TypedEntry) -> Seq<char> {
    match entry.key {
        Typed::Ascii(s) => s,
        Typed::Text(s) => s,
        Typed::Uuid(bytes) => uuid_text(bytes),
        Typed::Int(i) => signed_decimal(i),
        Typed::BigInt(i) => signed_decimal(i),
        _ => entry.key_debug,
    }
}

/// The entries that result from setting the pairs one after another, a later
/// pair replacing the value of an earlier one of the same name.
pub open spec fn collect_entries(pairs: Seq<(Seq<char>, Json)>) -> Seq<(Seq<char>, Json)>
    decreases pairs.len(),
{
    if pairs.len() == 0 {
        Seq::empty()
    } else {
        with_entry(collect_entries(pairs.drop_last()), pairs.last().0, pairs.last().1)
    }
}

/// The generic value that a number given by its bit pattern is shown as: the
/// number if it is finite, null otherwise.
pub open spec fn encode_number(bits: u64) -> Json {
    if is_finite_bits(bits) {
        Json::Float(bits)
    } else {
        Json::Null
    }
}

/// The generic value that a typed value is shown as.
pub open spec fn encode(value: Typed) -> Json
    decreases value,
{
    match value {
        Typed::Boolean(b) => Json::Bool(b),
        Typed::Int(i) => Json::Int(i),
        Typed::BigInt(i) => Json::Int(i),
        Typed::Float(bits) => encode_number(bits),
        Typed::Double(bits) => encode_number(bits),
        Typed::Ascii(s) => Json::Text(s),
        Typed::Text(s) => Json::Text(s),
        Typed::Uuid(bytes) => Json::Text(uuid_text(bytes)),
        Typed::Timeuuid(bytes) => Json::Text(uuid_text(bytes)),
        Typed::Blob(bytes) => Json::Text(base64_text(bytes)),
        Typed::List(items) => Json::Array(encode_seq(items)),
        Typed::SetOf(items) => Json::Array(encode_seq(items)),
        Typed::MapOf(entries) => Json::Object(collect_entries(entry_pairs(entries))),
        Typed::Tuple(slots) => Json::Array(encode_slots(slots)),
        Typed::Other(debug) => Json::Text(debug),
    }
}

/// The generic values of a run of typed values, one for one.
pub open spec fn encode_seq(items: Seq<Typed>) -> Seq<Json>
    decreases items,
{
    Seq::new(
        items.len(),
        |i: int|
            if 0 <= i < items.len() {
                encode(items[i])
            } else {
                Json::Null
            },
    )
}

/// The generic value of a cell or tuple slot: null where it is absent.
pub open spec fn encode_slot(slot: Option<Typed>) -> Json
    decreases slot,
{
    match slot {
        Some(v) => encode(v),
        None => Json::Null,
    }
}

/// The generic values of a run of slots, one for one.
pub open spec fn encode_slots(slots: Seq<Option<Typed>>) -> Seq<Json>
    decreases slots,
{
    Seq::new(
        slots.len(),
        |i: int|
            if 0 <= i < slots.len() {
                encode_slot(slots[i])
            } else {
                Json::Null
            },
    )
}

/// The name and generic value of each map entry, one for one.
pub open spec fn entry_pairs(entries: Seq<TypedEntry>) -> Seq<(Seq<char>, Json)>
    decreases entries,
{
    Seq::new(
        entries.len(),
        |i: int|
            if 0 <= i < entries.len() {
                (key_text(entries[i]), encode(entries[i].value))
            } else {
                (Seq::empty(), Json::Null)
            },
    )
}

/// A boolean, an integer or a text that is bound and read back is unchanged,
/// and so is a finite number.
pub proof fn lemma_scalar_round_trip(value: Json)
    requires
        value is Bool || value is Int || value is Text || (value matches Json::Float(bits)
            && is_finite_bits(bits)),
    ensures
        is_scalar(value),
        encode(query_value(value)) == value,
{
}

/// Converts a scalar of a request into the typed value to bind. Arrays,
/// objects and null are refused.
pub fn to_query_value(value: &JsonValue) -> (typed: Option<TypedValue>)
    ensures
        typed is Some <==> is_scalar(value@),
        typed matches Some(t) ==> t@ == query_value(value@),
{
    match value {
        JsonValue::Text(s) => Some(TypedValue::Text(s.clone())),
        JsonValue::Bool(b) => Some(TypedValue::Boolean(*b)),
        JsonValue::Int(i) => Some(TypedValue::BigInt(*i)),
        JsonValue::Float(bits) => Some(TypedValue::Double(*bits)),
        JsonValue::Large { value, nearest } => if *value <= 9223372036854775807u64 {
            Some(TypedValue::BigInt(*value as i64))
        } else {
            Some(TypedValue::Double(*nearest))
        },
        _ => None,
    }
}

/// Writes the text that stands for a map entry's key.
pub fn cql_map_key_to_string(entry: &MapEntry) -> (text: String)
    ensures
        text@ == key_text(entry@),
{
    match &entry.key {
        TypedValue::Ascii(s) => s.clone(),
        TypedValue::Text(s) => s.clone(),
        TypedValue::Uuid(bytes) => uuid_to_text(bytes),
        TypedValue::Int(i) => signed_decimal_text(*i as i64),
        TypedValue::BigInt(i) => signed_decimal_text(*i),
        _ => entry.key_debug.clone(),
    }
}

fn number_to_json(bits: u64) -> (json: JsonValue)
    ensures
        json@ == encode_number(bits),
{
    if finite_bits(bits) {
        JsonValue::Float(bits)
    } else {
        JsonValue::Null
    }
}

/// Converts a typed value of a result into a generic value.
pub fn cql_value_to_json(value: &TypedValue) -> (json: JsonValue)
    ensures
        json@ == encode(value@),
    decreases value,
{
    match value {
        TypedValue::Boolean(b) => JsonValue::Bool(*b),
        TypedValue::Int(i) => JsonValue::Int(*i as i64),
        TypedValue::BigInt(i) => JsonValue::Int(*i),
        TypedValue::Float(bits) => number_to_json(*bits),
        TypedValue::Double(bits) => number_to_json(*bits),
        TypedValue::Ascii(s) => JsonValue::Text(s.clone()),
        TypedValue::Text(s) => JsonValue::Text(s.clone()),
        TypedValue::Uuid(bytes) => JsonValue::Text(uuid_to_text(bytes)),
        TypedValue::Timeuuid(bytes) => JsonValue::Text(timeuuid_to_text(bytes)),
        TypedValue::Blob(blob) => JsonValue::Text(base64_encode(blob.as_bytes())),
        TypedValue::List(items) => {
            let out = values_to_json(items);
            JsonValue::Array(out)
        },
        TypedValue::SetOf(items) => {
            let out = values_to_json(items);
            JsonValue::Array(out)
        },
        TypedValue::MapOf(entries) => {
            let out = entries_to_members(entries);
            JsonValue::Object(out)
        },
        TypedValue::Tuple(slots) => {
            let out = slots_to_json(slots);
            JsonValue::Array(out)
        },
        TypedValue::Other(debug) => JsonValue::Text(debug.clone()),
    }
}

/// Converts each typed value of a run into a generic value.
pub fn values_to_json(items: &Vec<TypedValue>) -> (out: Vec<JsonValue>)
    ensures
        values_view(out@) == encode_seq(typed_seq(items@)),
    decreases items,
{
    let mut out: Vec<JsonValue> = Vec::new();
    let mut i: usize = 0;
    while i < items.len()
        invariant
            i <= items.len(),
            out@.len() == i,
            forall|j: int| 0 <= j < i ==> (#[trigger] out@[j])@ == encode(items@[j]@),
        decreases items.len() - i,
    {
        proof {
            broadcast use vstd::std_specs::vec::axiom_vec_index_decreases;

        }
        let json = cql_value_to_json(&items[i]);
        out.push(json);
        i += 1;
    }
    assert(values_view(out@) =~= encode_seq(typed_seq(items@)));
    out
}

/// Converts one cell or tuple slot into a generic value: null where absent.
pub fn slot_to_json(slot: &Option<TypedValue>) -> (json: JsonValue)
    ensures
        json@ == encode_slot(slot_view(*slot)),
    decreases slot,
{
    match slot {
        Some(v) => cql_value_to_json(v),
        None => JsonValue::Null,
    }
}

/// Converts each slot of a run into a generic value.
pub fn slots_to_json(slots: &Vec<Option<TypedValue>>) -> (out: Vec<JsonValue>)
    ensures
        values_view(out@) == encode_slots(slots_view(slots@)),
    decreases slots,
{
    let mut out: Vec<JsonValue> = Vec::new();
    let mut i: usize = 0;
    while i < slots.len()
        invariant
            i <= slots.len(),
            out@.len() == i,
            forall|j: int| 0 <= j < i ==> (#[trigger] out@[j])@ == encode_slot(slot_view(slots@[j])),
        decreases slots.len() - i,
    {
        proof {
            broadcast use vstd::std_specs::vec::axiom_vec_index_decreases;

        }
        let json = slot_to_json(&slots[i]);
        out.push(json);
        i += 1;
    }
    assert(values_view(out@) =~= encode_slots(slots_view(slots@)));
    out
}

/// Converts the entries of a map into the members of an object, a later
/// entry replacing the value of an earlier one with the same key text.
pub fn entries_to_members(entries: &Vec<MapEntry>) -> (out: Vec<Member>)
    ensures
        members_view(out@) == collect_entries(entry_pairs(entries_view(entries@))),
    decreases entries,
{
    let mut out: Vec<Member> = Vec::new();
    let mut i: usize = 0;
    let ghost pairs = entry_pairs(entries_view(entries@));
    assert(members_view(out@) =~= collect_entries(pairs.take(0)));
    while i < entries.len()
        invariant
            i <= entries.len(),
            pairs == entry_pairs(entries_view(entries@)),
            members_view(out@) == collect_entries(pairs.take(i as int)),
        decreases entries.len() - i,
    {
        proof {
            broadcast use vstd::std_specs::vec::axiom_vec_index_decreases;

        }
        let name = cql_map_key_to_string(&entries[i]);
        let json = cql_value_to_json(&entries[i].value);
        proof {
            let next = pairs.take(i as int + 1);
            assert(next.drop_last() =~= pairs.take(i as int));
            assert(next.last() == (name@, json@));
        }
        set_member(&mut out, name, json);
        i += 1;
    }
    assert(pairs.take(entries.len() as int) =~= pairs);
    out
}

/// The generic value of the cell at position `i` of a row: null where the row
/// has no such cell or the cell is absent.
pub open spec fn cell(row: Seq<Option<Typed>>, i: int) -> Json {
    if 0 <= i < row.len() {
        encode_slot(row[i])
    } else {
        Json::Null
    }
}

/// Each column's name with the generic value of the row's cell there.
pub open spec fn record_pairs(names: Seq<Seq<char>>, row: Seq<Option<Typed>>) -> Seq<
    (Seq<char>, Json),
> {
    Seq::new(names.len(), |i: int| (names[i], cell(row, i)))
}

/// The record of a row: one entry per column name, in the result's column
/// order; where a name occurs twice the later cell's value stands at the
/// earlier place.
pub open spec fn record_of(names: Seq<Seq<char>>, row: Seq<Option<Typed>>) -> Seq<
    (Seq<char>, Json),
> {
    collect_entries(record_pairs(names, row))
}

/// The records of a run of rows, one for one.
pub open spec fn records_of(names: Seq<Seq<char>>, rows: Seq<Seq<Option<Typed>>>) -> Seq<
    Seq<(Seq<char>, Json)>,
> {
    Seq::new(rows.len(), |k: int| record_of(names, rows[k]))
}

/// The entries of each record of a run, one for one.
pub open spec fn records_view(records: Seq<Vec<Member>>) -> Seq<Seq<(Seq<char>, Json)>> {
    Seq::new(records.len(), |k: int| members_view(records[k]@))
}

/// Entries collected from pairs never hold a name twice, and are no more
/// than the pairs.
pub proof fn lemma_collect_entries(pairs: Seq<(Seq<char>, Json)>)
    ensures
        distinct_keys(collect_entries(pairs)),
        collect_entries(pairs).len() <= pairs.len(),
    decreases pairs.len(),
{
    if pairs.len() > 0 {
        lemma_collect_entries(pairs.drop_last());
        lemma_with_entry(collect_entries(pairs.drop_last()), pairs.last().0, pairs.last().1);
    }
}

/// Pairs whose names are all different are collected as they stand.
pub proof fn lemma_collect_distinct(pairs: Seq<(Seq<char>, Json)>)
    requires
        distinct_keys(pairs),
    ensures
        collect_entries(pairs) == pairs,
    decreases pairs.len(),
{
    if pairs.len() == 0 {
        assert(pairs =~= Seq::empty());
    } else {
        let front = pairs.drop_last();
        assert forall|i: int, j: int| 0 <= i < j < front.len() implies (#[trigger] front[i]).0 != (
        #[trigger] front[j]).0 by {
            assert(front[i] == pairs[i] && front[j] == pairs[j]);
        }
        lemma_collect_distinct(front);
        lemma_key_index(front, pairs.last().0);
        if has_key(front, pairs.last().0) {
            let k = crate::json::key_index(front, pairs.last().0);
            assert(front[k] == pairs[k]);
            assert(pairs[k].0 != pairs[pairs.len() - 1].0);
        }
        assert(front.push(pairs.last()) =~= pairs);
    }
}

/// Where the column names of a result are all different, the record of a
/// row holds one entry for each column, in the result's column order, with
/// the generic value of the row's cell there.
pub proof fn lemma_record_order(names: Seq<Seq<char>>, row: Seq<Option<Typed>>)
    requires
        names.no_duplicates(),
    ensures
        record_of(names, row) == record_pairs(names, row),
        record_of(names, row).len() == names.len(),
        forall|i: int|
            0 <= i < names.len() ==> (#[trigger] record_of(names, row)[i]) == (
                names[i],
                cell(row, i),
            ),
{
    let pairs = record_pairs(names, row);
    assert forall|i: int, j: int| 0 <= i < j < pairs.len() implies (#[trigger] pairs[i]).0 != (
    #[trigger] pairs[j]).0 by {
        assert(names[i] != names[j]);
    }
    lemma_collect_distinct(pairs);
}

/// Decodes one row into a record, given the result's column names.
pub fn row_to_record(names: &Vec<String>, row: &Vec<Option<TypedValue>>) -> (record: Vec<Member>)
    ensures
        members_view(record@) == record_of(names.deep_view(), slots_view(row@)),
{
    let mut record: Vec<Member> = Vec::new();
    let ghost pairs = record_pairs(names.deep_view(), slots_view(row@));
    assert(members_view(record@) =~= collect_entries(pairs.take(0)));
    let mut i: usize = 0;
    while i < names.len()
        invariant
            i <= names.len(),
            pairs == record_pairs(names.deep_view(), slots_view(row@)),
            members_view(record@) == collect_entries(pairs.take(i as int)),
        decreases names.len() - i,
    {
        let json = if i < row.len() {
            slot_to_json(&row[i])
        } else {
            JsonValue::Null
        };
        let name = names[i].clone();
        proof {
            let next = pairs.take(i as int + 1);
            assert(next.drop_last() =~= pairs.take(i as int));
            assert(next.last() == (name@, json@));
        }
        set_member(&mut record, name, json);
        i += 1;
    }
    assert(pairs.take(names.len() as int) =~= pairs);
    record
}

/// Decodes the rows of a result into records, given its column names.
pub fn rows_to_records(names: &Vec<String>, rows: &Vec<Vec<Option<TypedValue>>>) -> (records: Vec<
    Vec<Member>,
>)
    ensures
        records_view(records@) == records_of(names.deep_view(), rows_view(rows@)),
{
    let mut records: Vec<Vec<Member>> = Vec::new();
    let mut k: usize = 0;
    while k < rows.len()
        invariant
            k <= rows.len(),
            records@.len() == k,
            forall|j: int|
                0 <= j < k ==> members_view((#[trigger] records@[j])@) == record_of(
                    names.deep_view(),
                    slots_view(rows@[j]@),
                ),
        decreases rows.len() - k,
    {
        let record = row_to_record(names, &rows[k]);
        records.push(record);
        k += 1;
    }
    assert(records_view(records@) =~= records_of(names.deep_view(), rows_view(rows@)));
    records
}

} // verus!
