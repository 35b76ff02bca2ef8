//! The messages of JSON-RPC 2.0.
//!
//! An incoming message is a request where it has an id, and a notification
//! where it has none. Ids are unsigned integers; any other id, such as a string
//! or `null`, is rejected as an invalid request.
use vstd::prelude::*;
use vstd::string::*;

use crate::json::{
    invalid_text, member, parsed, quote, quoted, required, string, unsigned, JsonDoc, JsonError,
    NodeModel,
};
use crate::text::{
    cat, debug_of, debug_text, decimal, decimal_of, same, signed_decimal, signed_decimal_of,
};

verus! {

pub const CODE_PARSE_ERROR: i64 = -32700;

pub const CODE_INVALID_REQUEST: i64 = -32600;

pub const CODE_METHOD_NOT_FOUND: i64 = -32601;

pub const CODE_INVALID_PARAMS: i64 = -32602;

pub const CODE_INTERNAL_ERROR: i64 = -32603;

/// An incoming message.
#[derive(Debug, Clone, PartialEq, Eq)]
pub enum Incoming {
    /// The client expects an answer.
    Request { id: u64, method: String, params_json: String },
    /// The client expects none.
    Notification { method: String, params_json: String },
}

/// An [`Incoming`] as a mathematical value.
#[verifier::ext_equal]
pub enum IncomingModel {
    Request { id: u64, method: Seq<char>, params_json: Seq<char> },
    Notification { method: Seq<char>, params_json: Seq<char> },
}

impl View for Incoming {
    type V = IncomingModel;

    open spec fn view(&self) -> IncomingModel {
        match self {
            Incoming::Request { id, method, params_json } => IncomingModel::Request {
                id: *id,
                method: method@,
                params_json: params_json@,
            },
            Incoming::Notification { method, params_json } => IncomingModel::Notification {
                method: method@,
                params_json: params_json@,
            },
        }
    }
}

/// Why a line is refused.
#[derive(Debug, PartialEq, Eq)]
pub enum LineError {
    /// It is no JSON, or no message.
    NoMessage(String),
    /// It is a message whose id is no unsigned integer.
    BadId(String),
}

/// A [`LineError`] as a mathematical value.
#[verifier::ext_equal]
pub enum LineErrorModel {
    NoMessage(Seq<char>),
    BadId(Seq<char>),
}

impl View for LineError {
    type V = LineErrorModel;

    open spec fn view(&self) -> LineErrorModel {
        match self {
            LineError::NoMessage(e) => LineErrorModel::NoMessage(e@),
            LineError::BadId(e) => LineErrorModel::BadId(e@),
        }
    }
}

/// The answer to a line that is refused: an id that is not supported makes the
/// request invalid, anything else is an error of parsing. It has no id.
pub open spec fn refusal_of(e: LineErrorModel) -> ErrorModel {
    match e {
        LineErrorModel::NoMessage(message) => ErrorModel {
            id: None,
            code: CODE_PARSE_ERROR,
            message,
        },
        LineErrorModel::BadId(message) => ErrorModel {
            id: None,
            code: CODE_INVALID_REQUEST,
            message,
        },
    }
}

impl LineError {
    /// The answer to a line that is refused.
    pub fn to_response(&self) -> (r: ErrorResponse)
        ensures
            r@ == refusal_of(self@),
    {
        match self {
            LineError::NoMessage(e) => ErrorResponse::parse_error(e.as_str()),
            LineError::BadId(e) => ErrorResponse::invalid_request(e.as_str()),
        }
    }
}

/// A member that must be a string.
pub open spec fn string_member(doc: Seq<NodeModel>, name: Seq<char>) -> Result<
    Seq<char>,
    Seq<char>,
> {
    match required(doc, 0, name) {
        Err(e) => Err(e),
        Ok(j) => string(doc, j),
    }
}

/// The parameters of a message, as they stand in it.
pub open spec fn params_of(doc: Seq<NodeModel>) -> Result<Seq<char>, Seq<char>> {
    match member(doc, 0, "params"@) {
        Err(e) => Err(e),
        Ok(Some(j)) => Ok(doc[j].raw),
        Ok(None) => Ok("null"@),
    }
}

/// The method of a message and its parameters.
pub open spec fn head_of(doc: Seq<NodeModel>) -> Result<(Seq<char>, Seq<char>), Seq<char>> {
    match string_member(doc, "jsonrpc"@) {
        Err(e) => Err(e),
        Ok(version) => if version != "2.0"@ {
            Err(
                invalid_text(
                    doc[0],
                    "expected jsonrpc = \"2.0\", got "@ + debug_text(version),
                ),
            )
        } else {
            match string_member(doc, "method"@) {
                Err(e) => Err(e),
                Ok(method) => match params_of(doc) {
                    Err(e) => Err(e),
                    Ok(params_json) => Ok((method, params_json)),
                },
            }
        },
    }
}

/// The message that a document holds.
pub open spec fn incoming_of(doc: Seq<NodeModel>) -> Result<IncomingModel, LineErrorModel> {
    match head_of(doc) {
        Err(e) => Err(LineErrorModel::NoMessage(e)),
        Ok((method, params_json)) => match member(doc, 0, "id"@) {
            Err(e) => Err(LineErrorModel::NoMessage(e)),
            Ok(None) => Ok(IncomingModel::Notification { method, params_json }),
            Ok(Some(j)) => match unsigned(doc, j, u64::MAX as int) {
                Ok(n) => Ok(IncomingModel::Request { id: n as u64, method, params_json }),
                Err(_) => Err(
                    LineErrorModel::BadId(invalid_text(doc[j], "id must be a u64"@)),
                ),
            },
        },
    }
}

/// The message that a line holds.
pub open spec fn incoming_of_line(line: Seq<char>) -> Result<IncomingModel, LineErrorModel> {
    match parsed(line) {
        Err(e) => Err(LineErrorModel::NoMessage(e)),
        Ok(doc) => incoming_of(doc),
    }
}

fn read_string_member(doc: &JsonDoc, name: &str) -> (r: Result<String, JsonError>)
    requires
        doc.wf(),
    ensures
        match r {
            Ok(s) => string_member(doc@, name@) == Ok::<Seq<char>, Seq<char>>(s@),
            Err(e) => string_member(doc@, name@) == Err::<Seq<char>, Seq<char>>(e@),
        },
{
    let j: usize = doc.required(0, name)?;
    doc.string(j)
}

fn read_head(doc: &JsonDoc) -> (r: Result<(String, String), JsonError>)
    requires
        doc.wf(),
    ensures
        match r {
            Ok(h) => head_of(doc@) == Ok::<(Seq<char>, Seq<char>), Seq<char>>((h.0@, h.1@)),
            Err(e) => head_of(doc@) == Err::<(Seq<char>, Seq<char>), Seq<char>>(e@),
        },
{
    let version = read_string_member(doc, "jsonrpc")?;
    if !same(version.as_str(), "2.0") {
        let why = cat("expected jsonrpc = \"2.0\", got ", debug_of(version.as_str()).as_str());
        return Err(doc.invalid(0, why.as_str()));
    }
    let method = read_string_member(doc, "method")?;
    let params_json = match doc.member(0, "params")? {
        Some(j) => doc.nodes[j].raw.clone(),
        None => "null".to_owned(),
    };
    Ok((method, params_json))
}

impl Incoming {
    /// Reads the message that a document holds.
    pub fn from_json(doc: &JsonDoc) -> (r: Result<Incoming, LineError>)
        requires
            doc.wf(),
        ensures
            match r {
                Ok(m) => incoming_of(doc@) == Ok::<IncomingModel, LineErrorModel>(m@),
                Err(e) => incoming_of(doc@) == Err::<IncomingModel, LineErrorModel>(e@),
            },
    {
        let (method, params_json) = match read_head(doc) {
            Ok(head) => head,
            Err(e) => return Err(LineError::NoMessage(e.message)),
        };
        match doc.member(0, "id") {
            Err(e) => Err(LineError::NoMessage(e.message)),
            Ok(None) => Ok(Incoming::Notification { method, params_json }),
            Ok(Some(j)) => match doc.unsigned(j, u64::MAX) {
                Ok(id) => Ok(Incoming::Request { id, method, params_json }),
                Err(_) => Err(LineError::BadId(doc.invalid(j, "id must be a u64").message)),
            },
        }
    }
}

/// Reads the message that a line holds. A line that is no JSON or lacks a
/// required field, or whose id has a shape that is not supported, is refused.
pub fn parse_incoming(line: &str) -> (r: Result<Incoming, LineError>)
    ensures
        match r {
            Ok(m) => incoming_of_line(line@) == Ok::<IncomingModel, LineErrorModel>(m@),
            Err(e) => incoming_of_line(line@) == Err::<IncomingModel, LineErrorModel>(e@),
        },
{
    match JsonDoc::parse(line) {
        Ok(doc) => Incoming::from_json(&doc),
        Err(e) => Err(LineError::NoMessage(e.message)),
    }
}

/// The answer to a request that went well.
#[derive(Debug, PartialEq, Eq)]
pub struct SuccessResponse {
    pub id: u64,
    /// The result, as JSON.
    pub result_json: String,
}

/// A successful answer as JSON.
pub open spec fn success_text(id: u64, result: Seq<char>) -> Seq<char> {
    "{\"jsonrpc\":\"2.0\",\"id\":"@ + decimal(id as nat) + ",\"result\":"@ + result + "}"@
}

impl SuccessResponse {
    /// Writes the answer as JSON.
    pub fn to_json_string(&self) -> (r: String)
        ensures
            r@ == success_text(self.id, self.result_json@),
    {
        let mut out = "{\"jsonrpc\":\"2.0\",\"id\":".to_owned();
        out.append(decimal_of(self.id).as_str());
        out.append(",\"result\":");
        out.append(self.result_json.as_str());
        out.append("}");
        out
    }
}

/// What goes wrong with a request.
#[derive(Debug, PartialEq, Eq)]
pub struct RpcError {
    pub code: i64,
    pub message: String,
}

/// The answer to a request that went wrong. It has no id where the id could
/// not be read.
#[derive(Debug, PartialEq, Eq)]
pub struct ErrorResponse {
    pub id: Option<u64>,
    pub error: RpcError,
}

/// An [`ErrorResponse`] as a mathematical value.
#[verifier::ext_equal]
pub struct ErrorModel {
    pub id: Option<u64>,
    pub code: i64,
    pub message: Seq<char>,
}

impl View for ErrorResponse {
    type V = ErrorModel;

    open spec fn view(&self) -> ErrorModel {
        ErrorModel { id: self.id, code: self.error.code, message: self.error.message@ }
    }
}

/// An error answer as JSON.
pub open spec fn error_text(e: ErrorModel) -> Seq<char> {
    "{\"jsonrpc\":\"2.0\",\"id\":"@ + (match e.id {
        Some(id) => decimal(id as nat),
        None => "null"@,
    }) + ",\"error\":{\"code\":"@ + signed_decimal(e.code as int) + ",\"message\":"@ + quoted(
        e.message,
    ) + "}}"@
}

impl ErrorResponse {
    /// A line is no JSON, or no message.
    pub fn parse_error(message: &str) -> (r: Self)
        ensures
            r@ == (ErrorModel { id: None, code: CODE_PARSE_ERROR, message: message@ }),
    {
        ErrorResponse {
            id: None,
            error: RpcError { code: CODE_PARSE_ERROR, message: message.to_owned() },
        }
    }

    /// A message is no request.
    pub fn invalid_request(message: &str) -> (r: Self)
        ensures
            r@ == (ErrorModel { id: None, code: CODE_INVALID_REQUEST, message: message@ }),
    {
        ErrorResponse {
            id: None,
            error: RpcError { code: CODE_INVALID_REQUEST, message: message.to_owned() },
        }
    }

    /// There is no such method.
    pub fn method_not_found(id: u64, method: &str) -> (r: Self)
        ensures
            r@ == (ErrorModel {
                id: Some(id),
                code: CODE_METHOD_NOT_FOUND,
                message: "method not found: "@ + method@,
            }),
    {
        ErrorResponse {
            id: Some(id),
            error: RpcError {
                code: CODE_METHOD_NOT_FOUND,
                message: cat("method not found: ", method),
            },
        }
    }

    /// The parameters do not fit the method.
    pub fn invalid_params(id: u64, message: &str) -> (r: Self)
        ensures
            r@ == (ErrorModel { id: Some(id), code: CODE_INVALID_PARAMS, message: message@ }),
    {
        ErrorResponse {
            id: Some(id),
            error: RpcError { code: CODE_INVALID_PARAMS, message: message.to_owned() },
        }
    }

    /// The server failed.
    pub fn internal_error(id: u64, message: &str) -> (r: Self)
        ensures
            r@ == (ErrorModel { id: Some(id), code: CODE_INTERNAL_ERROR, message: message@ }),
    {
        ErrorResponse {
            id: Some(id),
            error: RpcError { code: CODE_INTERNAL_ERROR, message: message.to_owned() },
        }
    }

    /// Writes the answer as JSON.
    pub fn to_json_string(&self) -> (r: String)
        ensures
            r@ == error_text(self@),
    {
        let mut out = "{\"jsonrpc\":\"2.0\",\"id\":".to_owned();
        match self.id {
            Some(id) => {
                out.append(decimal_of(id).as_str());
            },
            None => {
                out.append("null");
            },
        }
        out.append(",\"error\":{\"code\":");
        out.append(signed_decimal_of(self.error.code).as_str());
        out.append(",\"message\":");
        out.append(quote(self.error.message.as_str()).as_str());
        out.append("}}");
        out
    }
}

/// A message that expects no answer.
#[derive(Debug, PartialEq, Eq)]
pub struct Notification {
    pub method: String,
    /// The parameters, as JSON.
    pub params_json: String,
}

/// A notification as JSON.
pub open spec fn notification_text(method: Seq<char>, params: Seq<char>) -> Seq<char> {
    "{\"jsonrpc\":\"2.0\",\"method\":"@ + quoted(method) + ",\"params\":"@ + params + "}"@
}

impl Notification {
    /// Writes the notification as JSON.
    pub fn to_json_string(&self) -> (r: String)
        ensures
            r@ == notification_text(self.method@, self.params_json@),
    {
        let mut out = "{\"jsonrpc\":\"2.0\",\"method\":".to_owned();
        out.append(quote(self.method.as_str()).as_str());
        out.append(",\"params\":");
        out.append(self.params_json.as_str());
        out.append("}");
        out
    }
}

} // verus!
