use vstd::prelude::*;

verus! {

/// Error codes returned in structured JSON error responses.
#[derive(Debug, Clone, Copy, PartialEq, Eq, Structural)]
pub enum ErrorCode {
    ValidationError,
    NotFound,
    DatabaseError,
    LockError,
}

/// Structured error for Igris tool responses.
#[derive(Debug, Clone)]
pub struct IgrisError {
    pub error: String,
    pub code: ErrorCode,
}

/// The wire name of an error code (SCREAMING_SNAKE_CASE).
pub open spec fn spec_code_name(c: ErrorCode) -> Seq<char> {
    match c {
        ErrorCode::ValidationError => "VALIDATION_ERROR"@,
        ErrorCode::NotFound => "NOT_FOUND"@,
        ErrorCode::DatabaseError => "DATABASE_ERROR"@,
        ErrorCode::LockError => "LOCK_ERROR"@,
    }
}

impl ErrorCode {
    /// The wire name of this code, as it appears in JSON error payloads.
    pub fn as_str(&self) -> (r: &'static str)
        ensures
            r@ == spec_code_name(*self),
    {
        match self {
            ErrorCode::ValidationError => "VALIDATION_ERROR",
            ErrorCode::NotFound => "NOT_FOUND",
            ErrorCode::DatabaseError => "DATABASE_ERROR",
            ErrorCode::LockError => "LOCK_ERROR",
        }
    }
}

impl IgrisError {
    /// An input that breaks a rule of the store.
    pub fn validation(msg: String) -> (r: Self)
        ensures
            r.error@ == msg@,
            r.code == ErrorCode::ValidationError,
    {
        IgrisError { error: msg, code: ErrorCode::ValidationError }
    }

    /// A record that does not exist (or is soft-deleted).
    pub fn not_found(msg: String) -> (r: Self)
        ensures
            r.error@ == msg@,
            r.code == ErrorCode::NotFound,
    {
        IgrisError { error: msg, code: ErrorCode::NotFound }
    }

    /// A failure reported by the storage engine.
    pub fn database(msg: String) -> (r: Self)
        ensures
            r.error@ == msg@,
            r.code == ErrorCode::DatabaseError,
    {
        IgrisError { error: msg, code: ErrorCode::DatabaseError }
    }

    /// A poisoned lock around the store.
    pub fn lock(msg: String) -> (r: Self)
        ensures
            r.error@ == msg@,
            r.code == ErrorCode::LockError,
    {
        IgrisError { error: msg, code: ErrorCode::LockError }
    }

    /// The human-readable message (what `Display` shows).
    pub fn to_string(&self) -> (r: String)
        ensures
            r@ == self.error@,
    {
        self.error.clone()
    }
}

} // verus!
