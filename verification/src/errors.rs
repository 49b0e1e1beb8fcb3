//! Application error model and its mapping to protocol error categories.

use crate::text::concat2;
use vstd::prelude::*;

verus! {

/// Failure classes of the tool surface.
#[derive(Debug)]
pub enum AppError {
    /// Malformed, out-of-range or contradictory request.
    InvalidInput(String),
    /// Account, mailbox or message absent.
    NotFound(String),
    /// Credential or login rejection.
    AuthFailed(String),
    /// A deadline was breached.
    Timeout(String),
    /// The mailbox epoch drifted.
    Conflict(String),
    /// Unexpected lower-layer failure.
    Internal(String),
}

/// Result type of every fallible function of the library.
pub type AppResult<T> = Result<T, AppError>;

/// Category under which an error is reported to the protocol client.
#[derive(Debug, Clone, Copy, PartialEq, Eq, Structural)]
pub enum ErrorCategory {
    InvalidParams,
    ResourceNotFound,
    InvalidRequest,
    InternalError,
}

/// What the protocol client is told of an error: the category, the bare
/// message and the machine-readable code.
#[derive(Debug)]
pub struct ErrorData {
    pub category: ErrorCategory,
    pub message: String,
    pub code: String,
}

/// The machine-readable code of each error class.
pub open spec fn code_of(e: AppError) -> Seq<char> {
    match e {
        AppError::InvalidInput(_) => "invalid_input"@,
        AppError::NotFound(_) => "not_found"@,
        AppError::AuthFailed(_) => "auth_failed"@,
        AppError::Timeout(_) => "timeout"@,
        AppError::Conflict(_) => "conflict"@,
        AppError::Internal(_) => "internal"@,
    }
}

/// Whether a caller may reasonably retry: only deadline breaches and
/// unclassified lower-layer failures.
pub open spec fn retryable_of(e: AppError) -> bool {
    e is Timeout || e is Internal
}

/// The protocol category of each error class.
pub open spec fn category_of(e: AppError) -> ErrorCategory {
    match e {
        AppError::InvalidInput(_) => ErrorCategory::InvalidParams,
        AppError::NotFound(_) => ErrorCategory::ResourceNotFound,
        AppError::AuthFailed(_) => ErrorCategory::InvalidRequest,
        AppError::Timeout(_) => ErrorCategory::InternalError,
        AppError::Conflict(_) => ErrorCategory::InvalidRequest,
        AppError::Internal(_) => ErrorCategory::InternalError,
    }
}

/// The words that introduce the message of each error class.
pub open spec fn prefix_of(e: AppError) -> Seq<char> {
    match e {
        AppError::InvalidInput(_) => "invalid input: "@,
        AppError::NotFound(_) => "not found: "@,
        AppError::AuthFailed(_) => "authentication failed: "@,
        AppError::Timeout(_) => "operation timed out: "@,
        AppError::Conflict(_) => "conflict: "@,
        AppError::Internal(_) => "internal error: "@,
    }
}

impl AppError {
    /// The message that the error carries.
    pub open spec fn message(self) -> Seq<char> {
        match self {
            AppError::InvalidInput(m) => m@,
            AppError::NotFound(m) => m@,
            AppError::AuthFailed(m) => m@,
            AppError::Timeout(m) => m@,
            AppError::Conflict(m) => m@,
            AppError::Internal(m) => m@,
        }
    }

    /// The rendered error: the words of its class, then its message.
    pub open spec fn rendered(self) -> Seq<char> {
        prefix_of(self) + self.message()
    }

    /// An `InvalidInput` error with the message `msg`.
    pub fn invalid(msg: &str) -> (e: AppError)
        ensures
            e is InvalidInput,
            e.message() == msg@,
    {
        AppError::InvalidInput(msg.to_owned())
    }

    /// The message that the error carries.
    pub fn message_text(&self) -> (m: &str)
        ensures
            m@ == self.message(),
    {
        match self {
            AppError::InvalidInput(m) => m.as_str(),
            AppError::NotFound(m) => m.as_str(),
            AppError::AuthFailed(m) => m.as_str(),
            AppError::Timeout(m) => m.as_str(),
            AppError::Conflict(m) => m.as_str(),
            AppError::Internal(m) => m.as_str(),
        }
    }

    /// The machine-readable code of the error.
    pub fn code(&self) -> (c: &'static str)
        ensures
            c@ == code_of(*self),
    {
        match self {
            AppError::InvalidInput(_) => "invalid_input",
            AppError::NotFound(_) => "not_found",
            AppError::AuthFailed(_) => "auth_failed",
            AppError::Timeout(_) => "timeout",
            AppError::Conflict(_) => "conflict",
            AppError::Internal(_) => "internal",
        }
    }

    /// Whether a caller may reasonably retry after this error.
    pub fn retryable(&self) -> (r: bool)
        ensures
            r == retryable_of(*self),
    {
        match self {
            AppError::Timeout(_) => true,
            AppError::Internal(_) => true,
            _ => false,
        }
    }

    /// The error as one line of text.
    pub fn to_string(&self) -> (s: String)
        ensures
            s@ == self.rendered(),
    {
        match self {
            AppError::InvalidInput(m) => concat2("invalid input: ", m.as_str()),
            AppError::NotFound(m) => concat2("not found: ", m.as_str()),
            AppError::AuthFailed(m) => concat2("authentication failed: ", m.as_str()),
            AppError::Timeout(m) => concat2("operation timed out: ", m.as_str()),
            AppError::Conflict(m) => concat2("conflict: ", m.as_str()),
            AppError::Internal(m) => concat2("internal error: ", m.as_str()),
        }
    }

    /// A copy of the error.
    pub fn duplicate(&self) -> (e: AppError)
        ensures
            e == *self,
    {
        match self {
            AppError::InvalidInput(m) => AppError::InvalidInput(m.clone()),
            AppError::NotFound(m) => AppError::NotFound(m.clone()),
            AppError::AuthFailed(m) => AppError::AuthFailed(m.clone()),
            AppError::Timeout(m) => AppError::Timeout(m.clone()),
            AppError::Conflict(m) => AppError::Conflict(m.clone()),
            AppError::Internal(m) => AppError::Internal(m.clone()),
        }
    }

    /// What the protocol client is told of the error.
    pub fn to_error_data(&self) -> (d: ErrorData)
        ensures
            d.category == category_of(*self),
            d.message@ == self.message(),
            d.code@ == code_of(*self),
    {
        let category = match self {
            AppError::InvalidInput(_) => ErrorCategory::InvalidParams,
            AppError::NotFound(_) => ErrorCategory::ResourceNotFound,
            AppError::AuthFailed(_) => ErrorCategory::InvalidRequest,
            AppError::Timeout(_) => ErrorCategory::InternalError,
            AppError::Conflict(_) => ErrorCategory::InvalidRequest,
            AppError::Internal(_) => ErrorCategory::InternalError,
        };
        ErrorData {
            category,
            message: self.message_text().to_owned(),
            code: self.code().to_owned(),
        }
    }
}

} // verus!
