//! How a request to one of the collaborating endpoints can fail.

use vstd::prelude::*;

verus! {

/// A refused request: what kind of refusal, and the reason given.
#[derive(Debug, PartialEq, Eq)]
pub enum ApiError {
    /// The caller did not show who it is.
    Unauthorized(String),
    /// What was asked for clashes with what is stored.
    Conflict(String),
    /// The server could not do its part.
    Internal(String),
}

impl ApiError {
    /// The HTTP status that stands for this refusal.
    pub open spec fn spec_status(&self) -> u16 {
        match self {
            ApiError::Unauthorized(_) => 401,
            ApiError::Conflict(_) => 409,
            ApiError::Internal(_) => 500,
        }
    }

    /// The reason given.
    pub open spec fn spec_message(&self) -> Seq<char> {
        match self {
            ApiError::Unauthorized(reason) => reason@,
            ApiError::Conflict(reason) => reason@,
            ApiError::Internal(reason) => reason@,
        }
    }

    /// The HTTP status that stands for this refusal.
    pub fn status(&self) -> (status: u16)
        ensures
            status == self.spec_status(),
    {
        match self {
            ApiError::Unauthorized(_) => 401,
            ApiError::Conflict(_) => 409,
            ApiError::Internal(_) => 500,
        }
    }

    /// The reason given.
    pub fn message(&self) -> (message: String)
        ensures
            message@ == self.spec_message(),
    {
        match self {
            ApiError::Unauthorized(reason) => reason.clone(),
            ApiError::Conflict(reason) => reason.clone(),
            ApiError::Internal(reason) => reason.clone(),
        }
    }
}

} // verus!
