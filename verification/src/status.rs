//! The status codes that the router and the codec answer with.

use vstd::prelude::*;

verus! {

/// A status code of a response.
#[derive(PartialEq, Copy, Clone, Eq, Hash, Debug, Structural)]
pub enum StatusCode {
    /// 200 OK
    Okay,
    /// 400 Bad Request
    BadRequest,
    /// 404 Not Found
    NotFound,
    /// 405 Method Not Allowed
    MethodNotAllowed,
    /// 500 Internal Server Error
    InternalServerError,
    /// 501 Not Implemented
    NotImplemented,
}

/// The number of a status code.
pub open spec fn status_number(code: StatusCode) -> u16 {
    match code {
        StatusCode::Okay => 200,
        StatusCode::BadRequest => 400,
        StatusCode::NotFound => 404,
        StatusCode::MethodNotAllowed => 405,
        StatusCode::InternalServerError => 500,
        StatusCode::NotImplemented => 501,
    }
}

/// The reason phrase that goes with a status code.
pub open spec fn status_reason(code: StatusCode) -> Seq<char> {
    match code {
        StatusCode::Okay => "OK"@,
        StatusCode::BadRequest => "Bad Request"@,
        StatusCode::NotFound => "Not Found"@,
        StatusCode::MethodNotAllowed => "Method Not Allowed"@,
        StatusCode::InternalServerError => "Internal Server Error"@,
        StatusCode::NotImplemented => "Not Implemented"@,
    }
}

impl StatusCode {
    /// The number of the status code.
    pub fn to_u16(&self) -> (n: u16)
        ensures
            n == status_number(*self),
    {
        match *self {
            StatusCode::Okay => 200,
            StatusCode::BadRequest => 400,
            StatusCode::NotFound => 404,
            StatusCode::MethodNotAllowed => 405,
            StatusCode::InternalServerError => 500,
            StatusCode::NotImplemented => 501,
        }
    }

    /// The reason phrase that goes with the status code.
    pub fn canonical_reason(&self) -> (reason: Option<&'static str>)
        ensures
            reason is Some,
            reason->Some_0@ == status_reason(*self),
    {
        match *self {
            StatusCode::Okay => Some("OK"),
            StatusCode::BadRequest => Some("Bad Request"),
            StatusCode::NotFound => Some("Not Found"),
            StatusCode::MethodNotAllowed => Some("Method Not Allowed"),
            StatusCode::InternalServerError => Some("Internal Server Error"),
            StatusCode::NotImplemented => Some("Not Implemented"),
        }
    }
}

} // verus!
