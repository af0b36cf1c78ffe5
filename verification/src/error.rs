//! What the service answers when it refuses a request.

use crate::identity::{principal_debug_text, Identity};
use vstd::prelude::*;
use vstd::string::StringExecFns;

verus! {

/// Why the service could not be opened: what the owner's region holds is
/// not a cell that can be used.
#[derive(Debug)]
pub enum OpenError {
    /// The region holds a cell of a layout that is not supported.
    IncompatibleVersion { last_supported_version: u8, decoded_version: u8 },
    /// The memory has no room for the cell.
    ValueTooLarge { value_size: u64 },
}

/// Why a request was refused.
#[derive(Debug)]
pub enum ServiceError {
    /// The caller is not the owner.
    NotOwner(Identity),
    /// The caller is not an operator.
    NotOperator(Identity),
    /// The entropy source failed; the text describes the fault.
    EntropySource(String),
    /// A number needs more bytes than the ledger stores.
    TooLarge,
}

/// A refusal, with identities as bytes and text as characters.
pub enum Refusal {
    NotOwner(Seq<u8>),
    NotOperator(Seq<u8>),
    EntropySource(Seq<char>),
    TooLarge,
}

/// The text of a refusal.
pub open spec fn refusal_text(refusal: Refusal) -> Seq<char> {
    match refusal {
        Refusal::NotOwner(caller) => "Error: "@ + principal_debug_text(caller)
            + " is not the owner"@,
        Refusal::NotOperator(caller) => "Error: "@ + principal_debug_text(caller)
            + " is not a valid operator"@,
        Refusal::EntropySource(fault) => "Error: "@ + fault,
        Refusal::TooLarge => "Error: the number does not fit in 32 bytes"@,
    }
}

impl View for ServiceError {
    type V = Refusal;

    open spec fn view(&self) -> Refusal {
        match self {
            ServiceError::NotOwner(caller) => Refusal::NotOwner(caller@),
            ServiceError::NotOperator(caller) => Refusal::NotOperator(caller@),
            ServiceError::EntropySource(fault) => Refusal::EntropySource(fault@),
            ServiceError::TooLarge => Refusal::TooLarge,
        }
    }
}

impl ServiceError {
    /// The text of the refusal, as the caller reads it.
    pub fn message(&self) -> (r: String)
        ensures
            r@ == refusal_text(self@),
    {
        match self {
            ServiceError::NotOwner(caller) => {
                let text = caller.debug_text();
                String::from_str("Error: ").concat(text.as_str()).concat(" is not the owner")
            },
            ServiceError::NotOperator(caller) => {
                let text = caller.debug_text();
                String::from_str("Error: ").concat(text.as_str()).concat(
                    " is not a valid operator",
                )
            },
            ServiceError::EntropySource(fault) => String::from_str("Error: ").concat(
                fault.as_str(),
            ),
            ServiceError::TooLarge => String::from_str(
                "Error: the number does not fit in 32 bytes",
            ),
        }
    }
}

} // verus!
