//! The failures of an evaluation. Each one ends the call in which it arises.

use vstd::prelude::*;

verus! {

/// The kinds into which the failures fall.
#[derive(Clone, Copy, Debug, PartialEq, Eq, Structural)]
pub enum ErrorKind {
    /// The rule itself is malformed.
    Configuration,
    /// The rule names a context variable that the context does not hold.
    Lookup,
    /// A number cannot be compared.
    Type,
}

/// A failure of an evaluation.
#[derive(Clone, Copy, Debug, PartialEq, Eq, Structural)]
pub enum Error {
    /// The node's `variable` is no key of the context.
    ContextValueNotFound,
    /// The node reads a property but has neither `value` nor `variable`.
    ValueMissing,
    /// The node needs an operator and names none.
    OperatorMissing,
    /// The node names an operator that the registry does not hold.
    OperatorNotFound,
    /// The children of a node without `conditions` were asked for.
    ConditionsMissing,
    /// An ordering was asked of an infinity or a NaN.
    InvalidNumber,
}

impl Error {
    /// The kind of this failure.
    pub open spec fn kind_of(self) -> ErrorKind {
        match self {
            Error::ContextValueNotFound => ErrorKind::Lookup,
            Error::InvalidNumber => ErrorKind::Type,
            _ => ErrorKind::Configuration,
        }
    }

    /// The text of this failure.
    pub open spec fn text(self) -> Seq<char> {
        match self {
            Error::ContextValueNotFound => "Error getting context value"@,
            Error::ValueMissing => "Error getting value"@,
            Error::OperatorMissing => "Operator is required"@,
            Error::OperatorNotFound => "Operator not found"@,
            Error::ConditionsMissing => "Error with conditions"@,
            Error::InvalidNumber => "Invalid number conversion"@,
        }
    }

    /// The kind of this failure.
    pub fn kind(&self) -> (kind: ErrorKind)
        ensures
            kind == self.kind_of(),
    {
        match self {
            Error::ContextValueNotFound => ErrorKind::Lookup,
            Error::InvalidNumber => ErrorKind::Type,
            _ => ErrorKind::Configuration,
        }
    }

    /// The text of this failure, for messages.
    pub fn message(&self) -> (message: String)
        ensures
            message@ == self.text(),
    {
        match self {
            Error::ContextValueNotFound => String::from_str("Error getting context value"),
            Error::ValueMissing => String::from_str("Error getting value"),
            Error::OperatorMissing => String::from_str("Operator is required"),
            Error::OperatorNotFound => String::from_str("Operator not found"),
            Error::ConditionsMissing => String::from_str("Error with conditions"),
            Error::InvalidNumber => String::from_str("Invalid number conversion"),
        }
    }
}

/// A dotted path names a key that the value it is looked up in does not
/// have.
#[derive(Debug, PartialEq, Eq)]
pub struct KeyNotFound {
    /// The segment of the path that was not found.
    pub key: String,
}

impl KeyNotFound {
    /// The text of this failure.
    pub open spec fn text(self) -> Seq<char> {
        "Key '"@ + self.key@ + "' not found"@
    }

    /// The text of this failure, for messages.
    pub fn message(&self) -> (message: String)
        ensures
            message@ == self.text(),
    {
        String::from_str("Key '").concat(self.key.as_str()).concat("' not found")
    }
}

} // verus!
