//! JSON-RPC requests and error replies.

use vstd::prelude::*;

use crate::json::{JsonModel, JsonValue};

verus! {

/// The id of a JSON-RPC call: a string or a number.
#[derive(Debug, PartialEq)]
pub enum ID {
    Str(String),
    Int(u32),
}

/// The model of an `ID`.
pub enum IdModel {
    Str(Seq<char>),
    Int(u32),
}

impl View for ID {
    type V = IdModel;

    open spec fn view(&self) -> IdModel {
        match self {
            ID::Str(s) => IdModel::Str(s@),
            ID::Int(n) => IdModel::Int(*n),
        }
    }
}

impl ID {
    /// A copy of the id.
    pub fn copy_id(&self) -> (r: ID)
        ensures
            r@ == self@,
    {
        match self {
            ID::Str(s) => ID::Str(s.clone()),
            ID::Int(n) => ID::Int(*n),
        }
    }
}

/// The view of optional parameters.
pub open spec fn opt_json_view(o: Option<JsonValue>) -> Option<JsonModel> {
    match o {
        Some(v) => Some(v@),
        None => None,
    }
}

/// A JSON-RPC call.
#[derive(Debug, PartialEq)]
pub struct APIRequest {
    pub jsonrpc: String,
    pub id: ID,
    pub method: String,
    pub params: Option<JsonValue>,
}

/// The model of an `APIRequest`.
pub struct RequestModel {
    pub jsonrpc: Seq<char>,
    pub id: IdModel,
    pub method: Seq<char>,
    pub params: Option<JsonModel>,
}

impl View for APIRequest {
    type V = RequestModel;

    open spec fn view(&self) -> RequestModel {
        RequestModel {
            jsonrpc: self.jsonrpc@,
            id: self.id@,
            method: self.method@,
            params: opt_json_view(self.params),
        }
    }
}

/// The error part of an error reply: the upstream's own error object, or
/// a message of ours.
#[derive(Debug, PartialEq)]
pub enum ErrorField {
    Object(JsonValue),
    Message(String),
}

/// The model of an `ErrorField`.
pub enum ErrorFieldModel {
    Object(JsonModel),
    Message(Seq<char>),
}

impl View for ErrorField {
    type V = ErrorFieldModel;

    open spec fn view(&self) -> ErrorFieldModel {
        match self {
            ErrorField::Object(v) => ErrorFieldModel::Object(v@),
            ErrorField::Message(m) => ErrorFieldModel::Message(m@),
        }
    }
}

impl ErrorField {
    /// A copy of the error field.
    pub fn copy_field(&self) -> (r: ErrorField)
        ensures
            r@ == self@,
    {
        match self {
            ErrorField::Object(v) => ErrorField::Object(v.copy_value()),
            ErrorField::Message(m) => ErrorField::Message(m.clone()),
        }
    }
}

/// An error as the cache keeps it.
#[derive(Debug, PartialEq)]
pub struct ErrorData {
    pub code: i32,
    pub message: String,
    pub error: ErrorField,
}

/// The model of an `ErrorData`.
pub struct ErrorDataModel {
    pub code: i32,
    pub message: Seq<char>,
    pub error: ErrorFieldModel,
}

impl View for ErrorData {
    type V = ErrorDataModel;

    open spec fn view(&self) -> ErrorDataModel {
        ErrorDataModel { code: self.code, message: self.message@, error: self.error@ }
    }
}

/// An error reply to a caller.
#[derive(Debug, PartialEq)]
pub struct ErrorStructure {
    pub jsonrpc: String,
    pub id: ID,
    pub code: i32,
    pub message: String,
    pub error: ErrorField,
}

/// The model of an `ErrorStructure`.
pub struct ErrorStructureModel {
    pub jsonrpc: Seq<char>,
    pub id: IdModel,
    pub code: i32,
    pub message: Seq<char>,
    pub error: ErrorFieldModel,
}

impl View for ErrorStructure {
    type V = ErrorStructureModel;

    open spec fn view(&self) -> ErrorStructureModel {
        ErrorStructureModel {
            jsonrpc: self.jsonrpc@,
            id: self.id@,
            code: self.code,
            message: self.message@,
            error: self.error@,
        }
    }
}

} // verus!
