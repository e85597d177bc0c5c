use vstd::prelude::*;

use crate::text::push_all;
use crate::types::ApiErrorBody;

verus! {

/// The kinds of failure that the library reports to its callers.
#[derive(Debug)]
pub enum AppError {
    BadRequest(String),
    Unauthorized(String),
    Forbidden(String),
    NotFound(String),
    Conflict(String),
    TooLarge(String),
    TooManyRequests(String),
    Internal(String),
    ServiceUnavailable(String),
}

pub type AppResult<T> = Result<T, AppError>;

/// The HTTP status that an error kind maps to.
pub open spec fn status_of(e: AppError) -> u16 {
    match e {
        AppError::BadRequest(_) => 400,
        AppError::Unauthorized(_) => 401,
        AppError::Forbidden(_) => 403,
        AppError::NotFound(_) => 404,
        AppError::Conflict(_) => 409,
        AppError::TooLarge(_) => 413,
        AppError::TooManyRequests(_) => 429,
        AppError::Internal(_) => 500,
        AppError::ServiceUnavailable(_) => 503,
    }
}

/// The message an error carries.
pub open spec fn message_of(e: AppError) -> Seq<char> {
    match e {
        AppError::BadRequest(m) => m@,
        AppError::Unauthorized(m) => m@,
        AppError::Forbidden(m) => m@,
        AppError::NotFound(m) => m@,
        AppError::Conflict(m) => m@,
        AppError::TooLarge(m) => m@,
        AppError::TooManyRequests(m) => m@,
        AppError::Internal(m) => m@,
        AppError::ServiceUnavailable(m) => m@,
    }
}

impl AppError {
    /// An internal error with the given message.
    pub fn internal(msg: String) -> (r: AppError)
        ensures
            r is Internal,
            message_of(r) == msg@,
    {
        AppError::Internal(msg)
    }

    /// An internal error for a failed I/O step: `"<ctx>: <err>"`.
    pub fn io(ctx: &str, err: &str) -> (r: AppError)
        ensures
            r is Internal,
            message_of(r) == ctx@ + ": "@ + err@,
    {
        let mut m = String::new();
        push_all(&mut m, ctx);
        push_all(&mut m, ": ");
        push_all(&mut m, err);
        AppError::Internal(m)
    }

    /// The HTTP status code of this error.
    pub fn status_code(&self) -> (r: u16)
        ensures
            r == status_of(*self),
    {
        match self {
            AppError::BadRequest(_) => 400,
            AppError::Unauthorized(_) => 401,
            AppError::Forbidden(_) => 403,
            AppError::NotFound(_) => 404,
            AppError::Conflict(_) => 409,
            AppError::TooLarge(_) => 413,
            AppError::TooManyRequests(_) => 429,
            AppError::Internal(_) => 500,
            AppError::ServiceUnavailable(_) => 503,
        }
    }

    /// The short machine-readable code of this error, as sent in a JSON body.
    pub fn code(&self) -> (r: &'static str)
        ensures
            r@ == code_of(*self),
    {
        match self {
            AppError::BadRequest(_) => "bad_request",
            AppError::Unauthorized(_) => "unauthorized",
            AppError::Forbidden(_) => "forbidden",
            AppError::NotFound(_) => "not_found",
            AppError::Conflict(_) => "conflict",
            AppError::TooLarge(_) => "too_large",
            AppError::TooManyRequests(_) => "too_many_requests",
            AppError::Internal(_) => "internal",
            AppError::ServiceUnavailable(_) => "service_unavailable",
        }
    }

    /// The JSON body of the response to this error: its code and message.
    pub fn body(&self) -> (r: ApiErrorBody)
        ensures
            r.error@ == code_of(*self),
            r.message@ == message_of(*self),
    {
        ApiErrorBody { error: self.code().to_string(), message: self.message().to_string() }
    }

    /// The message this error carries.
    pub fn message(&self) -> (r: &str)
        ensures
            r@ == message_of(*self),
    {
        match self {
            AppError::BadRequest(m) => m.as_str(),
            AppError::Unauthorized(m) => m.as_str(),
            AppError::Forbidden(m) => m.as_str(),
            AppError::NotFound(m) => m.as_str(),
            AppError::Conflict(m) => m.as_str(),
            AppError::TooLarge(m) => m.as_str(),
            AppError::TooManyRequests(m) => m.as_str(),
            AppError::Internal(m) => m.as_str(),
            AppError::ServiceUnavailable(m) => m.as_str(),
        }
    }
}

/// The code of an error kind.
pub open spec fn code_of(e: AppError) -> Seq<char> {
    match e {
        AppError::BadRequest(_) => "bad_request"@,
        AppError::Unauthorized(_) => "unauthorized"@,
        AppError::Forbidden(_) => "forbidden"@,
        AppError::NotFound(_) => "not_found"@,
        AppError::Conflict(_) => "conflict"@,
        AppError::TooLarge(_) => "too_large"@,
        AppError::TooManyRequests(_) => "too_many_requests"@,
        AppError::Internal(_) => "internal"@,
        AppError::ServiceUnavailable(_) => "service_unavailable"@,
    }
}

} // verus!
