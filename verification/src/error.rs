//! The error taxonomy. Every transition and query returns exactly one of a
//! tagged success or one of these typed failures; an error always leaves the
//! store unchanged.

use vstd::prelude::*;

verus! {

/// A typed failure of one call.
#[derive(Debug, Clone, PartialEq, Eq)]
pub enum ContractError {
    /// The admin identity was rejected by the host's validator at
    /// initialization.
    ValidationError,
    /// `CreateBet` named a key that is already taken.
    AlreadyExists,
    /// `PlaceBet` named a bet that does not exist.
    NotFound,
    /// `PlaceBet` carried a choice outside `{"yes","no"}`.
    InvalidChoice,
    /// `GetConfig` ran against an uninitialized configuration slot.
    RetrievalError,
}

impl ContractError {
    /// The human-readable message each failure carries to the caller.
    pub open spec fn spec_message(self) -> Seq<char> {
        match self {
            ContractError::ValidationError => "Invalid admin address!"@,
            ContractError::AlreadyExists => "Key already taken!"@,
            ContractError::NotFound => "Bet does not exist!"@,
            ContractError::InvalidChoice => "Unrecognised choice!"@,
            ContractError::RetrievalError => "Config does not exist!"@,
        }
    }

    /// Renders the failure for the caller.
    pub fn message(&self) -> (s: String)
        ensures
            s@ == self.spec_message(),
    {
        match self {
            ContractError::ValidationError => "Invalid admin address!".to_owned(),
            ContractError::AlreadyExists => "Key already taken!".to_owned(),
            ContractError::NotFound => "Bet does not exist!".to_owned(),
            ContractError::InvalidChoice => "Unrecognised choice!".to_owned(),
            ContractError::RetrievalError => "Config does not exist!".to_owned(),
        }
    }
}

} // verus!
