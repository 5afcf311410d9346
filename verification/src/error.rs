use vstd::prelude::*;

verus! {

/// Errors the gateway reports to its callers; each carries a message.
#[derive(Clone, Debug, PartialEq, Eq)]
pub enum AppError {
    BadRequest(String),
    NotFound(String),
    ServiceUnavailable(String),
    Internal(String),
}

impl AppError {
    /// The message the error carries.
    pub open spec fn message_view(&self) -> Seq<char> {
        match self {
            AppError::BadRequest(m) => m@,
            AppError::NotFound(m) => m@,
            AppError::ServiceUnavailable(m) => m@,
            AppError::Internal(m) => m@,
        }
    }

    /// The message the error carries.
    pub fn message(&self) -> (r: String)
        ensures
            r@ == self.message_view(),
    {
        match self {
            AppError::BadRequest(m) => m.clone(),
            AppError::NotFound(m) => m.clone(),
            AppError::ServiceUnavailable(m) => m.clone(),
            AppError::Internal(m) => m.clone(),
        }
    }
}

} // verus!
