//! The generic value tree that arguments arrive in and results leave in.
//!
//! Numbers are signed 64-bit integers, doubles, or integers too great for
//! either to hold exactly. A double is held as its IEEE-754 bit pattern, so
//! that no arithmetic on it happens here.

use vstd::prelude::*;

verus! {

/// One named entry of an object. Entries keep the order they were added in.
#[derive(Debug, PartialEq)]
pub struct Member {
    pub name: String,
    pub value: JsonValue,
}

/// A generic value: null, a scalar, a sequence or an object.
#[derive(Debug, PartialEq)]
pub enum JsonValue {
    Null,
    Bool(bool),
    Int(i64),
    /// A double, as its IEEE-754 bit pattern.
    Float(u64),
    /// An integer written without sign or fraction that `Int` may not hold,
    /// together with the bit pattern of the double nearest to it.
    Large { value: u64, nearest: u64 },
    Text(String),
    Array(Vec<JsonValue>),
    Object(Vec<Member>),
}

/// The mathematical value of a [`JsonValue`].
pub enum Json {
    Null,
    Bool(bool),
    Int(int),
    Float(u64),
    Large { value: nat, nearest: u64 },
    Text(Seq<char>),
    Array(Seq<Json>),
    Object(Seq<(Seq<char>, Json)>),
}

/// The mathematical value of a generic value.
pub open spec fn json_of(value: JsonValue) -> Json
    decreases value,
{
    match value {
        JsonValue::Null => Json::Null,
        JsonValue::Bool(b) => Json::Bool(b),
        JsonValue::Int(i) => Json::Int(i as int),
        JsonValue::Float(bits) => Json::Float(bits),
        JsonValue::Large { value, nearest } => Json::Large { value: value as nat, nearest },
        JsonValue::Text(s) => Json::Text(s@),
        JsonValue::Array(items) => Json::Array(values_view(items@)),
        JsonValue::Object(members) => Json::Object(members_view(members@)),
    }
}

impl View for JsonValue {
    type V = Json;

    open spec fn view(&self) -> Json {
        json_of(*self)
    }
}

/// The values of a run of items, one for one.
pub open spec fn values_view(items: Seq<JsonValue>) -> Seq<Json>
    decreases items,
{
    Seq::new(
        items.len(),
        |i: int|
            if 0 <= i < items.len() {
                json_of(items[i])
            } else {
                Json::Null
            },
    )
}

/// The entries of a run of members, one for one.
pub open spec fn members_view(members: Seq<Member>) -> Seq<(Seq<char>, Json)>
    decreases members,
{
    Seq::new(
        members.len(),
        |i: int|
            if 0 <= i < members.len() {
                (members[i].name@, json_of(members[i].value))
            } else {
                (Seq::empty(), Json::Null)
            },
    )
}

/// The position of the first entry named `key`, or the number of entries if
/// there is none.
pub open spec fn key_index(entries: Seq<(Seq<char>, Json)>, key: Seq<char>) -> int
    decreases entries.len(),
{
    if entries.len() == 0 {
        0
    } else if entries[0].0 == key {
        0
    } else {
        1 + key_index(entries.drop_first(), key)
    }
}

/// Whether some entry is named `key`.
pub open spec fn has_key(entries: Seq<(Seq<char>, Json)>, key: Seq<char>) -> bool {
    key_index(entries, key) < entries.len()
}

/// The value of the first entry named `key`.
pub open spec fn entry_value(entries: Seq<(Seq<char>, Json)>, key: Seq<char>) -> Option<Json> {
    if has_key(entries, key) {
        Some(entries[key_index(entries, key)].1)
    } else {
        None
    }
}

/// The entries after `key` was set to `value`: an entry of that name keeps its
/// place and takes the new value; otherwise a new entry is added at the end.
pub open spec fn with_entry(entries: Seq<(Seq<char>, Json)>, key: Seq<char>, value: Json) -> Seq<
    (Seq<char>, Json),
> {
    if has_key(entries, key) {
        entries.update(key_index(entries, key), (key, value))
    } else {
        entries.push((key, value))
    }
}

/// Whether no name occurs twice among the entries.
pub open spec fn distinct_keys(entries: Seq<(Seq<char>, Json)>) -> bool {
    forall|i: int, j: int|
        0 <= i < j < entries.len() ==> (#[trigger] entries[i]).0 != (#[trigger] entries[j]).0
}

/// `key_index` is the least position whose entry is named `key`.
pub proof fn lemma_key_index(entries: Seq<(Seq<char>, Json)>, key: Seq<char>)
    ensures
        0 <= key_index(entries, key) <= entries.len(),
        has_key(entries, key) ==> entries[key_index(entries, key)].0 == key,
        forall|j: int| 0 <= j < key_index(entries, key) ==> (#[trigger] entries[j]).0 != key,
    decreases entries.len(),
{
    if entries.len() > 0 && entries[0].0 != key {
        let rest = entries.drop_first();
        lemma_key_index(rest, key);
        assert forall|j: int| 0 <= j < key_index(entries, key) implies (#[trigger] entries[j]).0
            != key by {
            if j > 0 {
                assert(entries[j] == rest[j - 1]);
            }
        }
    }
}

/// A position before which no entry is named `key`, and which either names
/// `key` or is the end, is `key_index`.
pub proof fn lemma_key_index_found(entries: Seq<(Seq<char>, Json)>, key: Seq<char>, at: int)
    requires
        0 <= at <= entries.len(),
        forall|j: int| 0 <= j < at ==> (#[trigger] entries[j]).0 != key,
        at < entries.len() ==> entries[at].0 == key,
    ensures
        key_index(entries, key) == at,
{
    lemma_key_index(entries, key);
    let k = key_index(entries, key);
    if k < at {
        assert(entries[k].0 != key);
    } else if k > at {
        assert(entries[at].0 != key);
    }
}

/// Setting an entry keeps names distinct, and the entry can be read back.
pub proof fn lemma_with_entry(entries: Seq<(Seq<char>, Json)>, key: Seq<char>, value: Json)
    ensures
        entry_value(with_entry(entries, key, value), key) == Some(value),
        distinct_keys(entries) ==> distinct_keys(with_entry(entries, key, value)),
        has_key(entries, key) ==> with_entry(entries, key, value).len() == entries.len(),
        !has_key(entries, key) ==> with_entry(entries, key, value).len() == entries.len() + 1,
{
    lemma_key_index(entries, key);
    let out = with_entry(entries, key, value);
    let k = key_index(entries, key);
    assert forall|j: int| 0 <= j < k implies (#[trigger] out[j]).0 != key by {
        assert(out[j] == entries[j]);
    }
    lemma_key_index_found(out, key, k);
    if distinct_keys(entries) {
        assert forall|i: int, j: int| 0 <= i < j < out.len() implies (#[trigger] out[i]).0 != (
        #[trigger] out[j]).0 by {
            if has_key(entries, key) {
                if i == k {
                    assert(entries[i].0 != entries[j].0);
                } else if j == k {
                    assert(entries[i].0 != entries[j].0);
                } else {
                    assert(entries[i].0 != entries[j].0);
                }
            } else {
                if j == entries.len() {
                    assert(entries[i].0 != key);
                } else {
                    assert(entries[i].0 != entries[j].0);
                }
            }
        }
    }
}

/// The natural number that a value is, where it is an integer that is not
/// negative.
pub open spec fn natural_of(value: Json) -> Option<nat> {
    match value {
        Json::Int(i) => if i >= 0 {
            Some(i as nat)
        } else {
            None
        },
        Json::Large { value, .. } => Some(value),
        _ => None,
    }
}

/// Whether a double's bit pattern stands for a finite number: its eleven
/// exponent bits are not all ones.
pub open spec fn is_finite_bits(bits: u64) -> bool {
    (bits / 0x10_0000_0000_0000) % 0x800 != 0x7ff
}

/// Decides whether a double's bit pattern stands for a finite number.
pub fn finite_bits(bits: u64) -> (finite: bool)
    ensures
        finite == is_finite_bits(bits),
{
    (bits / 0x10_0000_0000_0000) % 0x800 != 0x7ff
}

/// Finds the position of the first member named `key`.
pub fn find_member(members: &Vec<Member>, key: &str) -> (at: usize)
    ensures
        at == key_index(members_view(members@), key@),
{
    let mut i: usize = 0;
    while i < members.len()
        invariant
            i <= members.len(),
            forall|j: int| 0 <= j < i ==> (#[trigger] members_view(members@)[j]).0 != key@,
        decreases members.len() - i,
    {
        if crate::text::str_eq(members[i].name.as_str(), key) {
            proof {
                assert(members_view(members@)[i as int].0 == key@);
                lemma_key_index_found(members_view(members@), key@, i as int);
            }
            return i;
        }
        i += 1;
    }
    proof {
        lemma_key_index_found(members_view(members@), key@, i as int);
    }
    i
}

/// Looks up the value of the first member named `key`.
pub fn get_member<'a>(members: &'a Vec<Member>, key: &str) -> (found: Option<&'a JsonValue>)
    ensures
        match found {
            Some(v) => entry_value(members_view(members@), key@) == Some(v@),
            None => entry_value(members_view(members@), key@) is None,
        },
{
    let at = find_member(members, key);
    if at < members.len() {
        Some(&members[at].value)
    } else {
        None
    }
}

/// Sets the member named `name` to `value`: an existing member keeps its place
/// and takes the new value; otherwise the member is added at the end.
pub fn set_member(members: &mut Vec<Member>, name: String, value: JsonValue)
    ensures
        members_view(final(members)@) == with_entry(members_view(old(members)@), name@, value@),
{
    let at = find_member(members, name.as_str());
    let ghost before = members_view(members@);
    let ghost key = name@;
    let ghost val = value@;
    if at < members.len() {
        members.set(at, Member { name, value });
        assert(members_view(members@) =~= before.update(at as int, (key, val)));
    } else {
        members.push(Member { name, value });
        assert(members_view(members@) =~= before.push((key, val)));
    }
}

impl JsonValue {
    /// The text of a text value.
    pub fn as_str(&self) -> (text: Option<&str>)
        ensures
            match text {
                Some(s) => self@ == Json::Text(s@),
                None => !(self@ is Text),
            },
    {
        match self {
            JsonValue::Text(s) => Some(s.as_str()),
            _ => None,
        }
    }

    /// The number of a non-negative integer value.
    pub fn as_u64(&self) -> (number: Option<u64>)
        ensures
            match number {
                Some(n) => natural_of(self@) == Some(n as nat),
                None => natural_of(self@) is None,
            },
    {
        match self {
            JsonValue::Int(i) => if *i >= 0 {
                Some(*i as u64)
            } else {
                None
            },
            JsonValue::Large { value, .. } => Some(*value),
            _ => None,
        }
    }

    /// The members of an object.
    pub fn as_object(&self) -> (members: Option<&Vec<Member>>)
        ensures
            match members {
                Some(ms) => self@ == Json::Object(members_view(ms@)),
                None => !(self@ is Object),
            },
    {
        match self {
            JsonValue::Object(ms) => Some(ms),
            _ => None,
        }
    }

    /// The items of an array.
    pub fn as_array(&self) -> (items: Option<&Vec<JsonValue>>)
        ensures
            match items {
                Some(vs) => self@ == Json::Array(values_view(vs@)),
                None => !(self@ is Array),
            },
    {
        match self {
            JsonValue::Array(vs) => Some(vs),
            _ => None,
        }
    }
}

} // verus!
