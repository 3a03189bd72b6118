//! Error codes shared by the IPC layer and the library's error type.

use vstd::prelude::*;

verus! {

/// The stable error codes reported to the desktop client.
#[derive(Debug, Clone, Copy, PartialEq, Eq, Structural)]
pub enum ErrorCode {
    IpcValidation,
    CollectUnsupported,
    StorageFailed,
    InternalFailed,
}

impl ErrorCode {
    /// The code's wire text.
    pub open spec fn code_text(self) -> Seq<char> {
        match self {
            ErrorCode::IpcValidation => "IPC-6001"@,
            ErrorCode::CollectUnsupported => "ING-1001"@,
            ErrorCode::StorageFailed => "DB-4001"@,
            ErrorCode::InternalFailed => "INT-9000"@,
        }
    }

    /// Storage and internal failures may succeed when tried again.
    pub open spec fn is_retryable(self) -> bool {
        self == ErrorCode::StorageFailed || self == ErrorCode::InternalFailed
    }

    pub fn as_str(self) -> (r: &'static str)
        ensures
            r@ == self.code_text(),
    {
        match self {
            ErrorCode::IpcValidation => "IPC-6001",
            ErrorCode::CollectUnsupported => "ING-1001",
            ErrorCode::StorageFailed => "DB-4001",
            ErrorCode::InternalFailed => "INT-9000",
        }
    }

    pub fn retryable(self) -> (r: bool)
        ensures
            r == self.is_retryable(),
    {
        match self {
            ErrorCode::StorageFailed | ErrorCode::InternalFailed => true,
            _ => false,
        }
    }
}

/// The library's error. A storage failure carries the text of the database
/// error that caused it.
#[derive(Debug, Clone)]
pub enum BackendError {
    Validation(String),
    NotFound(String),
    Storage(String),
    Internal(String),
}

impl BackendError {
    pub open spec fn spec_code(&self) -> ErrorCode {
        match self {
            BackendError::Validation(_) => ErrorCode::IpcValidation,
            BackendError::NotFound(_) => ErrorCode::CollectUnsupported,
            BackendError::Storage(_) => ErrorCode::StorageFailed,
            BackendError::Internal(_) => ErrorCode::InternalFailed,
        }
    }

    /// The detail text that the error carries.
    pub open spec fn detail(&self) -> Seq<char> {
        match self {
            BackendError::Validation(m) => m@,
            BackendError::NotFound(m) => m@,
            BackendError::Storage(m) => m@,
            BackendError::Internal(m) => m@,
        }
    }

    /// The prefix of the error's display text.
    pub open spec fn prefix(&self) -> Seq<char> {
        match self {
            BackendError::Validation(_) => "validation failed: "@,
            BackendError::NotFound(_) => "not found: "@,
            BackendError::Storage(_) => "storage failed: "@,
            BackendError::Internal(_) => "internal failed: "@,
        }
    }

    /// The error's display text: its prefix, then its detail.
    pub open spec fn display(&self) -> Seq<char> {
        self.prefix() + self.detail()
    }

    pub fn code(&self) -> (r: ErrorCode)
        ensures
            r == self.spec_code(),
    {
        match self {
            BackendError::Validation(_) => ErrorCode::IpcValidation,
            BackendError::NotFound(_) => ErrorCode::CollectUnsupported,
            BackendError::Storage(_) => ErrorCode::StorageFailed,
            BackendError::Internal(_) => ErrorCode::InternalFailed,
        }
    }

    pub fn retryable(&self) -> (r: bool)
        ensures
            r == self.spec_code().is_retryable(),
    {
        self.code().retryable()
    }

    /// The error's display text (what `to_string` gives).
    pub fn message(&self) -> (r: String)
        ensures
            r@ == self.display(),
    {
        let (mut out, detail) = match self {
            BackendError::Validation(m) => (String::from_str("validation failed: "), m),
            BackendError::NotFound(m) => (String::from_str("not found: "), m),
            BackendError::Storage(m) => (String::from_str("storage failed: "), m),
            BackendError::Internal(m) => (String::from_str("internal failed: "), m),
        };
        out.append(detail.as_str());
        out
    }
}

} // verus!
