//! The ways in which building a statement can be refused.

use crate::encoding::{debug_list, debug_list_text};
use vstd::prelude::*;
use vstd::string::*;

verus! {

/// Why a statement was not built.
#[derive(Debug, Clone, PartialEq)]
pub enum QueryError {
    /// The keyspace name is not a valid identifier.
    InvalidKeyspace,
    /// The table name is not a valid identifier.
    InvalidTable,
    /// No column was asked for.
    EmptyColumns,
    /// A projected column's name is not a valid identifier.
    InvalidColumn,
    /// A filter's column name is not a valid identifier.
    InvalidFilterColumn,
    /// A filter's value is not a scalar.
    UnsupportedFilterValue,
    /// An ordering column's name is not a valid identifier.
    InvalidOrderColumn,
    /// The partition argument's keys are not exactly the table's partition
    /// keys, which are given.
    PartitionKeysMismatch { expected: Vec<String> },
    /// A partition key's name is not a valid identifier.
    InvalidPartitionColumn,
    /// A partition key's value is not a scalar.
    UnsupportedPartitionValue,
    /// The cursor is not base64 text; the decoder's words are given.
    InvalidCursor { detail: String },
}

/// The mathematical value of a [`QueryError`].
pub enum Fault {
    InvalidKeyspace,
    InvalidTable,
    EmptyColumns,
    InvalidColumn,
    InvalidFilterColumn,
    UnsupportedFilterValue,
    InvalidOrderColumn,
    PartitionKeysMismatch { expected: Seq<Seq<char>> },
    InvalidPartitionColumn,
    UnsupportedPartitionValue,
    InvalidCursor { detail: Seq<char> },
}

impl View for QueryError {
    type V = Fault;

    open spec fn view(&self) -> Fault {
        match self {
            QueryError::InvalidKeyspace => Fault::InvalidKeyspace,
            QueryError::InvalidTable => Fault::InvalidTable,
            QueryError::EmptyColumns => Fault::EmptyColumns,
            QueryError::InvalidColumn => Fault::InvalidColumn,
            QueryError::InvalidFilterColumn => Fault::InvalidFilterColumn,
            QueryError::UnsupportedFilterValue => Fault::UnsupportedFilterValue,
            QueryError::InvalidOrderColumn => Fault::InvalidOrderColumn,
            QueryError::PartitionKeysMismatch { expected } => Fault::PartitionKeysMismatch {
                expected: expected.deep_view(),
            },
            QueryError::InvalidPartitionColumn => Fault::InvalidPartitionColumn,
            QueryError::UnsupportedPartitionValue => Fault::UnsupportedPartitionValue,
            QueryError::InvalidCursor { detail } => Fault::InvalidCursor { detail: detail@ },
        }
    }
}

/// The words in which a refusal is reported.
pub open spec fn fault_text(fault: Fault) -> Seq<char> {
    match fault {
        Fault::InvalidKeyspace => "invalid keyspace name"@,
        Fault::InvalidTable => "invalid table name"@,
        Fault::EmptyColumns => "columns must not be empty"@,
        Fault::InvalidColumn => "invalid column name"@,
        Fault::InvalidFilterColumn => "invalid column name in filters"@,
        Fault::UnsupportedFilterValue => "unsupported filter value type"@,
        Fault::InvalidOrderColumn => "invalid column name in order_by"@,
        Fault::PartitionKeysMismatch { expected } => "partition keys mismatch: expected "@
            + debug_list_text(expected),
        Fault::InvalidPartitionColumn => "invalid column name in partition"@,
        Fault::UnsupportedPartitionValue => "unsupported partition value type"@,
        Fault::InvalidCursor { detail } => detail,
    }
}

impl QueryError {
    /// Writes the words in which the refusal is reported.
    pub fn message(&self) -> (text: String)
        ensures
            text@ == fault_text(self@),
    {
        match self {
            QueryError::InvalidKeyspace => String::from_str("invalid keyspace name"),
            QueryError::InvalidTable => String::from_str("invalid table name"),
            QueryError::EmptyColumns => String::from_str("columns must not be empty"),
            QueryError::InvalidColumn => String::from_str("invalid column name"),
            QueryError::InvalidFilterColumn => String::from_str("invalid column name in filters"),
            QueryError::UnsupportedFilterValue => String::from_str(
                "unsupported filter value type",
            ),
            QueryError::InvalidOrderColumn => String::from_str("invalid column name in order_by"),
            QueryError::PartitionKeysMismatch { expected } => {
                let mut text = String::from_str("partition keys mismatch: expected ");
                let list = debug_list(expected);
                text.append(list.as_str());
                text
            },
            QueryError::InvalidPartitionColumn => String::from_str(
                "invalid column name in partition",
            ),
            QueryError::UnsupportedPartitionValue => String::from_str(
                "unsupported partition value type",
            ),
            QueryError::InvalidCursor { detail } => detail.clone(),
        }
    }
}

} // verus!
