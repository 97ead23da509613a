//! The errors that a call can end in, and what the caller gets to see of them.

use crate::json::{
    insert_string, json_object, json_of, json_strings, members_insert, members_new, no_members,
    JsonModel,
};
use crate::openapi::strings_json;
use crate::text::texts_of;
use vstd::prelude::*;

verus! {

/// The kind of an error.
#[derive(Clone, Copy, PartialEq, Eq, Structural, Debug)]
pub enum ErrorKind {
    /// The input is malformed: a path parameter or the body's syntax.
    BadRequest,
    /// The body is well-formed but violates constraints.
    ValidationError,
    /// The credential is missing or was rejected.
    Unauthorized,
    /// The handler found no such resource.
    NotFound,
    /// Anything else: a failed serialization, a programming error, a handler
    /// that failed without saying how.
    InternalError,
}

impl ErrorKind {
    /// The status code of the kind.
    pub open spec fn code(self) -> u16 {
        match self {
            ErrorKind::BadRequest => 400,
            ErrorKind::ValidationError => 422,
            ErrorKind::Unauthorized => 401,
            ErrorKind::NotFound => 404,
            ErrorKind::InternalError => 500,
        }
    }
}

/// An error as it is reported to the caller.
#[derive(Debug)]
pub struct ApiError {
    pub kind: ErrorKind,
    /// The message.
    pub error: String,
    /// The violations, for a validation error; empty otherwise.
    pub details: Vec<String>,
}

/// What an `ApiError` holds.
pub struct ApiErrorModel {
    pub kind: ErrorKind,
    pub error: Seq<char>,
    pub details: Seq<Seq<char>>,
}

impl View for ApiError {
    type V = ApiErrorModel;

    open spec fn view(&self) -> ApiErrorModel {
        ApiErrorModel { kind: self.kind, error: self.error@, details: texts_of(self.details@) }
    }
}

impl ApiErrorModel {
    /// An error of the given kind with the given message and no details.
    pub open spec fn plain(kind: ErrorKind, message: Seq<char>) -> ApiErrorModel {
        ApiErrorModel { kind, error: message, details: Seq::empty() }
    }

    /// The validation error that carries the given violations.
    pub open spec fn validation(details: Seq<Seq<char>>) -> ApiErrorModel {
        ApiErrorModel { kind: ErrorKind::ValidationError, error: "Validation failed"@, details }
    }

    /// The JSON body of the error: the message under `error` and, for a
    /// validation error, the violations under `details`.
    pub open spec fn json(self) -> JsonModel {
        let m = no_members().insert("error"@, JsonModel::String(self.error));
        JsonModel::Object(
            if self.kind == ErrorKind::ValidationError {
                m.insert("details"@, JsonModel::Array(strings_json(self.details)))
            } else {
                m
            },
        )
    }
}

impl ApiError {
    fn plain(kind: ErrorKind, message: String) -> (error: ApiError)
        ensures
            error@ == ApiErrorModel::plain(kind, message@),
    {
        let error = ApiError { kind, error: message, details: Vec::new() };
        assert(error@.details =~= Seq::empty());
        error
    }

    /// Malformed input.
    pub fn bad_request(message: String) -> (error: ApiError)
        ensures
            error@ == ApiErrorModel::plain(ErrorKind::BadRequest, message@),
    {
        ApiError::plain(ErrorKind::BadRequest, message)
    }

    /// A body that violates constraints, with the message of each violation.
    pub fn validation_error(details: Vec<String>) -> (error: ApiError)
        ensures
            error@ == ApiErrorModel::validation(texts_of(details@)),
    {
        ApiError {
            kind: ErrorKind::ValidationError,
            error: String::from_str("Validation failed"),
            details,
        }
    }

    /// A missing or rejected credential.
    pub fn unauthorized(message: &str) -> (error: ApiError)
        ensures
            error@ == ApiErrorModel::plain(ErrorKind::Unauthorized, message@),
    {
        ApiError::plain(ErrorKind::Unauthorized, String::from_str(message))
    }

    /// No such resource.
    pub fn not_found(message: String) -> (error: ApiError)
        ensures
            error@ == ApiErrorModel::plain(ErrorKind::NotFound, message@),
    {
        ApiError::plain(ErrorKind::NotFound, message)
    }

    /// An internal error.
    pub fn internal(message: String) -> (error: ApiError)
        ensures
            error@ == ApiErrorModel::plain(ErrorKind::InternalError, message@),
    {
        ApiError::plain(ErrorKind::InternalError, message)
    }

    /// The status code that the error is reported with.
    pub fn status(&self) -> (code: u16)
        ensures
            code == self.kind.code(),
    {
        match self.kind {
            ErrorKind::BadRequest => 400,
            ErrorKind::ValidationError => 422,
            ErrorKind::Unauthorized => 401,
            ErrorKind::NotFound => 404,
            ErrorKind::InternalError => 500,
        }
    }

    /// The JSON body that the error is reported with.
    pub fn to_json_value(&self) -> (value: serde_json::Value)
        ensures
            json_of(value) == self@.json(),
    {
        let mut members = members_new();
        insert_string(&mut members, "error", self.error.as_str());
        if let ErrorKind::ValidationError = self.kind {
            assert(self.details@.map_values(|s: String| JsonModel::String(s@)) =~= strings_json(
                self@.details,
            ));
            members_insert(&mut members, String::from_str("details"), json_strings(&self.details));
        }
        json_object(members)
    }
}

} // verus!
