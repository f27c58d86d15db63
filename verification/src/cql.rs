//! The database's typed values, as the gateway reads and binds them.
//!
//! Floating-point values are held as the IEEE-754 bit pattern of the number in
//! double precision; identifiers of the UUID kinds as their sixteen bytes.

use vstd::prelude::*;

verus! {

/// A run of bytes short enough to be written as base64 text: the text takes
/// four characters for every three bytes, and its length must fit in `usize`.
#[derive(Debug, PartialEq)]
pub struct Blob {
    bytes: Vec<u8>,
}

/// Whether a run of `len` bytes can be written as base64 text.
pub open spec fn encodable_len(len: nat) -> bool {
    4 * (len / 3) + 4 <= usize::MAX
}

impl View for Blob {
    type V = Seq<u8>;

    closed spec fn view(&self) -> Seq<u8> {
        self.bytes@
    }
}

impl Blob {
    #[verifier::type_invariant]
    spec fn well_formed(self) -> bool {
        encodable_len(self.bytes@.len())
    }

    /// Wraps the bytes, unless they are too many to be written as base64 text.
    pub fn new(bytes: Vec<u8>) -> (blob: Option<Blob>)
        ensures
            blob is Some <==> encodable_len(bytes@.len()),
            blob matches Some(b) ==> b@ == bytes@,
    {
        if bytes.len() / 3 <= (usize::MAX - 4) / 4 {
            Some(Blob { bytes })
        } else {
            None
        }
    }

    /// The bytes held.
    pub fn as_bytes(&self) -> (bytes: &Vec<u8>)
        ensures
            bytes@ == self@,
            encodable_len(bytes@.len()),
    {
        proof {
            use_type_invariant(self);
        }
        &self.bytes
    }
}

/// One entry of a map value. `key_debug` is the driver's debug text of the
/// key, used where the key's kind has no text form of its own.
#[derive(Debug, PartialEq)]
pub struct MapEntry {
    pub key: TypedValue,
    pub key_debug: String,
    pub value: TypedValue,
}

/// A typed database value.
#[derive(Debug, PartialEq)]
pub enum TypedValue {
    Ascii(String),
    Boolean(bool),
    Blob(Blob),
    /// A double, as its IEEE-754 bit pattern.
    Double(u64),
    /// A single-precision number, as the bit pattern of the same number in
    /// double precision.
    Float(u64),
    Int(i32),
    BigInt(i64),
    Text(String),
    Timeuuid([u8; 16]),
    Uuid([u8; 16]),
    List(Vec<TypedValue>),
    SetOf(Vec<TypedValue>),
    MapOf(Vec<MapEntry>),
    /// A tuple; an absent slot is `None`.
    Tuple(Vec<Option<TypedValue>>),
    /// A value of any other kind, as the driver's debug text of it.
    Other(String),
}

/// The mathematical value of a [`MapEntry`].
pub struct TypedEntry {
    pub key: Typed,
    pub key_debug: Seq<char>,
    pub value: Typed,
}

/// The mathematical value of a [`TypedValue`].
pub enum Typed {
    Ascii(Seq<char>),
    Boolean(bool),
    Blob(Seq<u8>),
    Double(u64),
    Float(u64),
    Int(int),
    BigInt(int),
    Text(Seq<char>),
    Timeuuid(Seq<u8>),
    Uuid(Seq<u8>),
    List(Seq<Typed>),
    SetOf(Seq<Typed>),
    MapOf(Seq<TypedEntry>),
    Tuple(Seq<Option<Typed>>),
    Other(Seq<char>),
}

/// The mathematical value of a typed value.
pub open spec fn typed_of(value: TypedValue) -> Typed
    decreases value,
{
    match value {
        TypedValue::Ascii(s) => Typed::Ascii(s@),
        TypedValue::Boolean(b) => Typed::Boolean(b),
        TypedValue::Blob(b) => Typed::Blob(b@),
        TypedValue::Double(bits) => Typed::Double(bits),
        TypedValue::Float(bits) => Typed::Float(bits),
        TypedValue::Int(i) => Typed::Int(i as int),
        TypedValue::BigInt(i) => Typed::BigInt(i as int),
        TypedValue::Text(s) => Typed::Text(s@),
        TypedValue::Timeuuid(b) => Typed::Timeuuid(b@),
        TypedValue::Uuid(b) => Typed::Uuid(b@),
        TypedValue::List(items) => Typed::List(typed_seq(items@)),
        TypedValue::SetOf(items) => Typed::SetOf(typed_seq(items@)),
        TypedValue::MapOf(entries) => Typed::MapOf(entries_view(entries@)),
        TypedValue::Tuple(slots) => Typed::Tuple(slots_view(slots@)),
        TypedValue::Other(s) => Typed::Other(s@),
    }
}

impl View for TypedValue {
    type V = Typed;

    open spec fn view(&self) -> Typed {
        typed_of(*self)
    }
}

/// The mathematical value of a map entry.
pub open spec fn entry_of(entry: MapEntry) -> TypedEntry
    decreases entry,
{
    TypedEntry {
        key: typed_of(entry.key),
        key_debug: entry.key_debug@,
        value: typed_of(entry.value),
    }
}

impl View for MapEntry {
    type V = TypedEntry;

    open spec fn view(&self) -> TypedEntry {
        entry_of(*self)
    }
}

/// The values of a run of typed values, one for one.
pub open spec fn typed_seq(items: Seq<TypedValue>) -> Seq<Typed>
    decreases items,
{
    Seq::new(
        items.len(),
        |i: int|
            if 0 <= i < items.len() {
                typed_of(items[i])
            } else {
                Typed::Boolean(false)
            },
    )
}

/// The values of a run of map entries, one for one.
pub open spec fn entries_view(entries: Seq<MapEntry>) -> Seq<TypedEntry>
    decreases entries,
{
    Seq::new(
        entries.len(),
        |i: int|
            if 0 <= i < entries.len() {
                entry_of(entries[i])
            } else {
                TypedEntry {
                    key: Typed::Boolean(false),
                    key_debug: Seq::empty(),
                    value: Typed::Boolean(false),
                }
            },
    )
}

/// The value of one cell or tuple slot; an absent one has none.
pub open spec fn slot_view(slot: Option<TypedValue>) -> Option<Typed>
    decreases slot,
{
    match slot {
        Some(v) => Some(typed_of(v)),
        None => None,
    }
}

/// The values of a run of cells or tuple slots, one for one.
pub open spec fn slots_view(slots: Seq<Option<TypedValue>>) -> Seq<Option<Typed>>
    decreases slots,
{
    Seq::new(
        slots.len(),
        |i: int|
            if 0 <= i < slots.len() {
                slot_view(slots[i])
            } else {
                None
            },
    )
}

/// The values of a run of rows, one for one.
pub open spec fn rows_view(rows: Seq<Vec<Option<TypedValue>>>) -> Seq<Seq<Option<Typed>>> {
    Seq::new(rows.len(), |i: int| slots_view(rows[i]@))
}

} // verus!
