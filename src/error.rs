use vstd::prelude::*;

verus! {

/// HTTP status sent for a successful request.
pub const STATUS_OK: u16 = 200;

/// HTTP status for a failure that is neither a conflict nor a missing record.
pub const STATUS_BAD_REQUEST: u16 = 400;

/// HTTP status for a missing record.
pub const STATUS_NOT_FOUND: u16 = 404;

/// HTTP status for a uniqueness conflict.
pub const STATUS_CONFLICT: u16 = 409;

/// How a data-store operation failed.
#[derive(PartialEq, Eq, Structural, Clone, Copy, Debug)]
pub enum StoreError {
    UniqueViolation,
    NotFound,
    Other,
}

/// The status code that a store failure is answered with.
pub open spec fn status_of(e: StoreError) -> u16 {
    match e {
        StoreError::UniqueViolation => STATUS_CONFLICT,
        StoreError::NotFound => STATUS_NOT_FOUND,
        StoreError::Other => STATUS_BAD_REQUEST,
    }
}

/// The error a request handler fails with.
#[derive(PartialEq, Eq, Structural, Clone, Copy, Debug)]
pub enum AppError {
    Store(StoreError),
}

impl From<StoreError> for AppError {
    fn from(error: StoreError) -> (r: AppError)
        ensures
            r == AppError::Store(error),
    {
        AppError::Store(error)
    }
}

impl vstd::std_specs::convert::FromSpecImpl<StoreError> for AppError {
    open spec fn obeys_from_spec() -> bool {
        true
    }

    open spec fn from_spec(error: StoreError) -> AppError {
        AppError::Store(error)
    }
}

impl AppError {
    /// The status code of the response that reports this error; the body stays empty.
    pub fn into_response(self) -> (r: u16)
        ensures
            match self {
                AppError::Store(e) => r == status_of(e),
            },
    {
        match self {
            AppError::Store(StoreError::UniqueViolation) => STATUS_CONFLICT,
            AppError::Store(StoreError::NotFound) => STATUS_NOT_FOUND,
            AppError::Store(StoreError::Other) => STATUS_BAD_REQUEST,
        }
    }
}

/// Maps a store outcome to what a handler answers: the value, or the status code of the failure.
pub fn respond<T>(outcome: Result<T, StoreError>) -> (r: Result<T, u16>)
    ensures
        match outcome {
            Ok(v) => r == Ok::<T, u16>(v),
            Err(e) => r == Err::<T, u16>(status_of(e)),
        },
{
    match outcome {
        Ok(v) => Ok(v),
        Err(e) => Err(AppError::from(e).into_response()),
    }
}

} // verus!
