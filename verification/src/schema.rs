//! Scalar values as an agent supplies them.

use vstd::prelude::*;

verus! {

/// A scalar argument value.
#[derive(Debug, Clone, PartialEq)]
pub enum AgentValue {
    Null,
    Bool(bool),
    Int(i64),
    Text(String),
}

impl AgentValue {
    /// The tag that names the value's kind.
    pub open spec fn tag(self) -> Seq<char> {
        match self {
            AgentValue::Null => "null"@,
            AgentValue::Bool(_) => "bool"@,
            AgentValue::Int(_) => "int"@,
            AgentValue::Text(_) => "text"@,
        }
    }

    /// Returns the tag of the value's kind: `null`, `bool`, `int` or `text`.
    pub fn type_tag(&self) -> (name: &'static str)
        ensures
            name@ == self.tag(),
    {
        match self {
            AgentValue::Null => "null",
            AgentValue::Bool(_) => "bool",
            AgentValue::Int(_) => "int",
            AgentValue::Text(_) => "text",
        }
    }
}

} // verus!
