//! The answer that a caller gets when an operation fails.

use vstd::prelude::*;
use crate::error::{EngineError, StoreFailure};

verus! {

/// The request was malformed.
pub const BAD_REQUEST: u16 = 400;

/// Nothing was found.
pub const NOT_FOUND: u16 = 404;

/// The request collides with what is stored.
pub const CONFLICT: u16 = 409;

/// The request was understood and cannot be carried out.
pub const UNPROCESSABLE_ENTITY: u16 = 422;

/// The store failed.
pub const INTERNAL_SERVER_ERROR: u16 = 500;

/// No room is left to store what was asked.
pub const INSUFFICIENT_STORAGE: u16 = 507;

/// A failure as the caller sees it: a status and a message.
#[derive(Clone, Debug)]
pub struct CustomError {
    pub status: u16,
    pub message: String,
}

/// The status that answers a failure of the engine.
pub open spec fn status_of(error: EngineError) -> u16 {
    match error {
        EngineError::NotFound => NOT_FOUND,
        EngineError::Conflict => CONFLICT,
        EngineError::ValidationError => BAD_REQUEST,
        EngineError::OrderingInvariantViolation => UNPROCESSABLE_ENTITY,
        EngineError::RankSpaceExhausted => INSUFFICIENT_STORAGE,
        EngineError::StoreError => INTERNAL_SERVER_ERROR,
    }
}

/// The message that answers a failure of the engine.
pub open spec fn message_of(error: EngineError) -> Seq<char> {
    match error {
        EngineError::NotFound => "资源未找到"@,
        EngineError::Conflict => "记录已存在"@,
        EngineError::ValidationError => "验证错误"@,
        EngineError::OrderingInvariantViolation => "相邻排序值顺序错误"@,
        EngineError::RankSpaceExhausted => "排序值空间已用尽"@,
        EngineError::StoreError => "数据库错误"@,
    }
}

impl CustomError {
    /// A failure with the given status and message.
    pub fn new(status: u16, message: String) -> (error: Self)
        ensures
            error.status == status,
            error.message@ == message@,
    {
        Self { status, message }
    }

    /// The answer to a failure of the engine.
    pub fn from_engine_error(error: EngineError) -> (answer: Self)
        ensures
            answer.status == status_of(error),
            answer.message@ == message_of(error),
    {
        match error {
            EngineError::NotFound => Self::new(NOT_FOUND, "资源未找到".to_owned()),
            EngineError::Conflict => Self::new(CONFLICT, "记录已存在".to_owned()),
            EngineError::ValidationError => Self::new(BAD_REQUEST, "验证错误".to_owned()),
            EngineError::OrderingInvariantViolation => Self::new(
                UNPROCESSABLE_ENTITY,
                "相邻排序值顺序错误".to_owned(),
            ),
            EngineError::RankSpaceExhausted => Self::new(
                INSUFFICIENT_STORAGE,
                "排序值空间已用尽".to_owned(),
            ),
            EngineError::StoreError => Self::new(INTERNAL_SERVER_ERROR, "数据库错误".to_owned()),
        }
    }

    /// The answer to a failure that the store reported: a missing row is
    /// not found, a duplicate key is a conflict, anything else is a failure
    /// of the store.
    pub fn from_store_failure(failure: StoreFailure) -> (answer: Self)
        ensures
            answer.status == status_of(failure.classified()),
            answer.message@ == message_of(failure.classified()),
    {
        Self::from_engine_error(failure.classify())
    }
}

/// Different failures of the engine are answered with different statuses.
pub proof fn lemma_statuses_are_distinct(first: EngineError, second: EngineError)
    requires
        first != second,
    ensures
        status_of(first) != status_of(second),
{
}

} // verus!
