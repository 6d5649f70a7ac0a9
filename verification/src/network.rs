//! Requests as a command describes them, and responses as they come back.

use crate::codec::{json_parse, parse};
use crate::error::ErrorKind;
use crate::json::{opt_view, then_field, Json, JsonView};
use vstd::prelude::*;

verus! {

/// The error code with which the bridge says that its link button has not
/// been pressed yet.
pub const LINK_BUTTON_NOT_PRESSED: i64 = 101;

/// The number at `[0].error.type` of an answer, where there is one. This is
/// where the bridge reports a failure: in place of the object asked for it
/// sends an array whose element holds the error.
pub open spec fn error_code(reply: JsonView) -> Option<i64> {
    match then_field(then_field(reply.item(0), "error"@), "type"@) {
        Some(code) => code.as_i64(),
        None => None,
    }
}

/// The failure that an answer reports: that the link button has not been
/// pressed, or, with any other code, an answer of another shape than the one
/// asked for. `None` where the answer reports no failure.
pub open spec fn reported_error(reply: JsonView) -> Option<ErrorKind> {
    match error_code(reply) {
        Some(code) => if code == LINK_BUTTON_NOT_PRESSED {
            Some(ErrorKind::DeviceBusy)
        } else {
            Some(ErrorKind::ProtocolError)
        },
        None => None,
    }
}

/// Follows two field names down from an optional value.
pub fn descend<'a>(start: Option<&'a Json>, outer: &str, inner: &str) -> (r: Option<&'a Json>)
    ensures
        opt_view(r) == then_field(then_field(opt_view(start), outer@), inner@),
{
    match start {
        Some(value) => match value.get(outer) {
            Some(below) => below.get(inner),
            None => None,
        },
        None => None,
    }
}

/// Reads the error code of an answer.
pub fn read_error_code(reply: &Json) -> (r: Option<i64>)
    ensures
        r == error_code(reply@),
{
    match descend(reply.at(0), "error", "type") {
        Some(value) => value.as_i64(),
        None => None,
    }
}

/// The HTTP method of a request.
#[derive(Clone, Copy, Debug, PartialEq, Eq, Structural)]
pub enum RequestType {
    Get,
    Post,
    Put,
}

/// One API action: the method, the path below the bridge's base URL, and the
/// body, if it has one.
#[derive(Debug, PartialEq, Eq)]
pub struct Request {
    pub request_type: RequestType,
    pub uri: String,
    pub params: Option<Json>,
}

/// The mathematical value of a [`Request`].
pub struct RequestView {
    pub request_type: RequestType,
    pub uri: Seq<char>,
    pub params: Option<JsonView>,
}

impl View for Request {
    type V = RequestView;

    open spec fn view(&self) -> RequestView {
        RequestView {
            request_type: self.request_type,
            uri: self.uri@,
            params: match self.params {
                Some(body) => Some(body@),
                None => None,
            },
        }
    }
}

/// What the bridge answered: the HTTP status, and the body as JSON. The
/// status is carried along as it came; whether it means success is for the
/// caller to say.
#[derive(Debug, PartialEq, Eq)]
pub struct Response {
    pub code: u16,
    pub body: Json,
}

/// The mathematical value of a [`Response`].
pub struct ResponseView {
    pub code: u16,
    pub body: JsonView,
}

impl View for Response {
    type V = ResponseView;

    open spec fn view(&self) -> ResponseView {
        ResponseView { code: self.code, body: self.body@ }
    }
}

impl Response {
    /// The failure that the bridge reports in this response, if it reports
    /// one. The status plays no part in it.
    pub fn device_error(&self) -> (r: Option<ErrorKind>)
        ensures
            r == reported_error(self.body@),
    {
        match read_error_code(&self.body) {
            Some(code) => if code == LINK_BUTTON_NOT_PRESSED {
                Some(ErrorKind::DeviceBusy)
            } else {
                Some(ErrorKind::ProtocolError)
            },
            None => None,
        }
    }

    /// Makes a response of a status and a body. The body is read as JSON
    /// whatever the status is; one that is not JSON is a protocol error.
    pub fn from_reply(code: u16, body: &str) -> (r: Result<Response, ErrorKind>)
        ensures
            match json_parse(body@) {
                Some(json) => r is Ok && r->Ok_0@ == (ResponseView { code, body: json }),
                None => r == Err::<Response, ErrorKind>(ErrorKind::ProtocolError),
            },
    {
        match parse(body) {
            Ok(json) => Ok(Response { code, body: json }),
            Err(_) => Err(ErrorKind::ProtocolError),
        }
    }
}

} // verus!
