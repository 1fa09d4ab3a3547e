//! Handlers: the reference that a route holds, and the answers of the
//! router where no route serves a request.

use crate::http::request::Request;
use crate::http::response::{Response, ResponseView};
use crate::status::{status_number, status_reason, StatusCode};
use vstd::prelude::*;

verus! {

/// A reference to the handler of a request. The router's own answers are
/// named; a handler of the application is its index in the application's
/// table of handlers.
#[derive(Copy, Clone, Debug, PartialEq, Eq, Hash, Structural)]
pub enum Handler {
    /// Answers `404 Not Found`.
    NotFound,
    /// Answers `405 Method Not Allowed`.
    MethodNotSupported,
    /// Answers `500 Internal Server Error`.
    InternalServerError,
    /// Answers `501 Not Implemented`.
    NotImplemented,
    /// A handler of the application.
    Registered(usize),
}

/// The answer of the router with the status `code`: no body, and the header
/// `Content-Length: 0` twice, once from the new response and once more.
pub open spec fn default_response(code: StatusCode) -> ResponseView {
    ResponseView {
        headers: seq![("Content-Length"@, "0"@), ("Content-Length"@, "0"@)],
        body: Seq::empty(),
        status: Some((status_number(code), status_reason(code))),
    }
}

impl Handler {
    /// The answer of one of the router's own handlers, and nothing for a
    /// handler of the application.
    pub fn respond(&self, request: Request, body: String) -> (r: Option<Response>)
        ensures
            match *self {
                Handler::NotFound => r is Some && r->Some_0@ == default_response(
                    StatusCode::NotFound,
                ),
                Handler::MethodNotSupported => r is Some && r->Some_0@ == default_response(
                    StatusCode::MethodNotAllowed,
                ),
                Handler::InternalServerError => r is Some && r->Some_0@ == default_response(
                    StatusCode::InternalServerError,
                ),
                Handler::NotImplemented => r is Some && r->Some_0@ == default_response(
                    StatusCode::NotImplemented,
                ),
                Handler::Registered(_) => r is None,
            },
    {
        match *self {
            Handler::NotFound => Some(default_404_handler(request, body)),
            Handler::MethodNotSupported => Some(method_not_supported_handler(request, body)),
            Handler::InternalServerError => Some(internal_server_error_handler(request, body)),
            Handler::NotImplemented => Some(not_implemented_handler(request, body)),
            Handler::Registered(_) => None,
        }
    }
}

/// The answer of the router with the status `code`.
fn answer(code: StatusCode) -> (response: Response)
    ensures
        response@ == default_response(code),
{
    let response = Response::new().with_header("Content-Length", "0").with_status(code);
    proof {
        assert(response@.headers =~= default_response(code).headers);
    }
    response
}

/// Answers `404 Not Found`.
pub fn default_404_handler(_request: Request, _body: String) -> (response: Response)
    ensures
        response@ == default_response(StatusCode::NotFound),
{
    answer(StatusCode::NotFound)
}

/// Answers `405 Method Not Allowed`.
pub fn method_not_supported_handler(_request: Request, _body: String) -> (response: Response)
    ensures
        response@ == default_response(StatusCode::MethodNotAllowed),
{
    answer(StatusCode::MethodNotAllowed)
}

/// Answers `500 Internal Server Error`.
pub fn internal_server_error_handler(_request: Request, _body: String) -> (response: Response)
    ensures
        response@ == default_response(StatusCode::InternalServerError),
{
    answer(StatusCode::InternalServerError)
}

/// Answers `501 Not Implemented`.
pub fn not_implemented_handler(_request: Request, _body: String) -> (response: Response)
    ensures
        response@ == default_response(StatusCode::NotImplemented),
{
    answer(StatusCode::NotImplemented)
}

} // verus!
