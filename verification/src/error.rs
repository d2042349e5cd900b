//! The failures of the ordering engine.

use vstd::prelude::*;

verus! {

/// Why an operation of the engine did not place a member.
#[derive(Clone, Copy, Debug, PartialEq, Eq, Structural)]
pub enum EngineError {
    /// A membership that the operation needs does not exist.
    NotFound,
    /// The group already holds the item.
    Conflict,
    /// A rank supplied by the caller is outside the storable range.
    ValidationError,
    /// The left neighbour does not come strictly before the right one.
    OrderingInvariantViolation,
    /// No storable rank is left where the member should go.
    RankSpaceExhausted,
    /// The store failed, or holds a rank that may not be stored.
    StoreError,
}

/// What a store reports when a statement fails.
#[derive(Clone, Copy, Debug, PartialEq, Eq, Structural)]
pub enum StoreFailure {
    /// The row asked for does not exist.
    NotFound,
    /// A row with the same key exists already.
    UniqueViolation,
    /// Any other failure.
    Other,
}

impl StoreFailure {
    /// The engine's name for a failure of the store.
    pub open spec fn classified(self) -> EngineError {
        match self {
            StoreFailure::NotFound => EngineError::NotFound,
            StoreFailure::UniqueViolation => EngineError::Conflict,
            StoreFailure::Other => EngineError::StoreError,
        }
    }

    /// Classifies a failure of the store: a missing row is `NotFound`, a
    /// duplicate key is `Conflict`, everything else is `StoreError`.
    pub fn classify(&self) -> (error: EngineError)
        ensures
            error == self.classified(),
    {
        match self {
            StoreFailure::NotFound => EngineError::NotFound,
            StoreFailure::UniqueViolation => EngineError::Conflict,
            StoreFailure::Other => EngineError::StoreError,
        }
    }
}

} // verus!
