//! Errors in a response declaration, found when it is processed.

use vstd::prelude::*;

verus! {

/// A defect in how responses are declared.
#[derive(Debug, Clone, PartialEq, Eq)]
pub enum DeclarationError {
    /// Statuses without a slot in the catalog, listed with the catalog.
    UnsupportedStatus { unsupported: Vec<u16>, supported: Vec<u16> },
    /// A status declared twice in one declaration.
    DuplicateStatus(u16),
    /// A type declared at a status that its own first descriptor does not carry.
    StatusMismatch { response_name: String, expected: u16 },
    /// A status that a typed response cannot have.
    InvalidStatus(u16),
    /// A typed response with more than one payload field.
    IncorrectDefinition,
}

} // verus!
