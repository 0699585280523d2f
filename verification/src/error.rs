//! The library's error type.
use vstd::prelude::*;
use crate::text::concat;

verus! {

/// Every way an operation of the library can fail.
#[derive(Debug)]
pub enum MinistoreError {
    Schema(String),
    QueryParse(String),
    QueryRejected(String),
    UnknownField(String),
    TypeMismatch { field: String, message: String },
    Cursor(String),
    SqliteFeatureMissing(String),
    NotFound(String),
    Internal(String),
    InvalidArgument(String),
}

/// The mathematical form of an error: its kind and its texts.
pub enum ErrorView {
    Schema(Seq<char>),
    QueryParse(Seq<char>),
    QueryRejected(Seq<char>),
    UnknownField(Seq<char>),
    TypeMismatch { field: Seq<char>, message: Seq<char> },
    Cursor(Seq<char>),
    SqliteFeatureMissing(Seq<char>),
    NotFound(Seq<char>),
    Internal(Seq<char>),
    InvalidArgument(Seq<char>),
}

impl View for MinistoreError {
    type V = ErrorView;

    open spec fn view(&self) -> ErrorView {
        match self {
            MinistoreError::Schema(s) => ErrorView::Schema(s@),
            MinistoreError::QueryParse(s) => ErrorView::QueryParse(s@),
            MinistoreError::QueryRejected(s) => ErrorView::QueryRejected(s@),
            MinistoreError::UnknownField(s) => ErrorView::UnknownField(s@),
            MinistoreError::TypeMismatch { field, message } => ErrorView::TypeMismatch {
                field: field@,
                message: message@,
            },
            MinistoreError::Cursor(s) => ErrorView::Cursor(s@),
            MinistoreError::SqliteFeatureMissing(s) => ErrorView::SqliteFeatureMissing(s@),
            MinistoreError::NotFound(s) => ErrorView::NotFound(s@),
            MinistoreError::Internal(s) => ErrorView::Internal(s@),
            MinistoreError::InvalidArgument(s) => ErrorView::InvalidArgument(s@),
        }
    }
}

/// The human-readable message of an error.
pub open spec fn error_message(e: ErrorView) -> Seq<char> {
    match e {
        ErrorView::Schema(s) => "schema error: "@ + s,
        ErrorView::QueryParse(s) => "query parse error: "@ + s,
        ErrorView::QueryRejected(s) => "query rejected: "@ + s,
        ErrorView::UnknownField(s) => "unknown field: "@ + s,
        ErrorView::TypeMismatch { field, message } => "type mismatch for field '"@ + field + "': "@
            + message,
        ErrorView::Cursor(s) => "cursor error: "@ + s,
        ErrorView::SqliteFeatureMissing(s) => "sqlite missing required feature: "@ + s,
        ErrorView::NotFound(s) => "item not found: "@ + s,
        ErrorView::Internal(s) => "internal error: "@ + s,
        ErrorView::InvalidArgument(s) => "invalid argument: "@ + s,
    }
}

impl MinistoreError {
    /// The message that describes this error.
    pub fn to_string(&self) -> (r: String)
        ensures
            r@ == error_message(self@),
    {
        match self {
            MinistoreError::Schema(s) => concat("schema error: ", s.as_str()),
            MinistoreError::QueryParse(s) => concat("query parse error: ", s.as_str()),
            MinistoreError::QueryRejected(s) => concat("query rejected: ", s.as_str()),
            MinistoreError::UnknownField(s) => concat("unknown field: ", s.as_str()),
            MinistoreError::TypeMismatch { field, message } => {
                let mut r = concat("type mismatch for field '", field.as_str());
                r.append("': ");
                r.append(message.as_str());
                r
            },
            MinistoreError::Cursor(s) => concat("cursor error: ", s.as_str()),
            MinistoreError::SqliteFeatureMissing(s) => concat(
                "sqlite missing required feature: ",
                s.as_str(),
            ),
            MinistoreError::NotFound(s) => concat("item not found: ", s.as_str()),
            MinistoreError::Internal(s) => concat("internal error: ", s.as_str()),
            MinistoreError::InvalidArgument(s) => concat("invalid argument: ", s.as_str()),
        }
    }
}

} // verus!
