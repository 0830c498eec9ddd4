use vstd::prelude::*;

use crate::text::string_of;

verus! {

/// A single problem found while validating entity data against its schema.
#[derive(Debug, Clone, PartialEq, Eq)]
pub struct ValidationDetail {
    /// JSON Pointer to the offending location in the submitted data.
    pub field: String,
    /// Human-readable description of the problem.
    pub problem: String,
}

/// The error type shared by every operation of the store.
#[derive(Debug, Clone, PartialEq, Eq)]
pub enum YorishiroError {
    ValidationFailed { message: String, details: Vec<ValidationDetail>, hint: String },
    NotFound { message: String },
    ScopeInsufficient { message: String, hint: String },
    Conflict { message: String },
    RelationTypeMismatch { message: String },
    Unauthenticated,
    /// An unexpected failure; the payload is its description.
    Internal(String),
}

/// The text an error displays: its kind, and the message it carries.
pub open spec fn error_display(e: YorishiroError) -> Seq<char> {
    match e {
        YorishiroError::ValidationFailed { message, .. } => "validation failed: "@ + message@,
        YorishiroError::NotFound { message } => "not found: "@ + message@,
        YorishiroError::ScopeInsufficient { message, .. } => "scope insufficient: "@ + message@,
        YorishiroError::Conflict { message } => "conflict: "@ + message@,
        YorishiroError::RelationTypeMismatch { message } => "relation type mismatch: "@ + message@,
        YorishiroError::Unauthenticated => "unauthenticated"@,
        YorishiroError::Internal(m) => "internal error: "@ + m@,
    }
}

impl YorishiroError {
    /// The human-readable form of the error: its kind, then its message.
    pub fn display_text(&self) -> (r: String)
        ensures
            r@ == error_display(*self),
    {
        let (prefix, message): (&str, &String) = match self {
            YorishiroError::ValidationFailed { message, .. } => ("validation failed: ", message),
            YorishiroError::NotFound { message } => ("not found: ", message),
            YorishiroError::ScopeInsufficient { message, .. } => ("scope insufficient: ", message),
            YorishiroError::Conflict { message } => ("conflict: ", message),
            YorishiroError::RelationTypeMismatch { message } => ("relation type mismatch: ", message),
            YorishiroError::Unauthenticated => {
                return string_of("unauthenticated");
            },
            YorishiroError::Internal(m) => ("internal error: ", m),
        };
        let mut r = string_of(prefix);
        r.append(message.as_str());
        r
    }
}

/// Why the database refused to store a row, with the driver's description of the failure.
#[derive(Debug, Clone, PartialEq, Eq)]
pub enum InsertFailure {
    /// A row with the same key already exists.
    UniqueViolation(String),
    /// A row it points at does not exist (any more).
    ForeignKeyViolation(String),
    /// Anything else.
    Other(String),
}

} // verus!
