//! The response and its bytes on the wire.

use crate::status::{status_number, status_reason, StatusCode};
use crate::text::{decimal_bytes, push_bytes, push_decimal};
use vstd::prelude::*;
use vstd::string::StringExecFns;
use vstd::utf8::encode_utf8;

verus! {

/// The header list of a message: name and value, in the order of the wire.
pub type Headers = Vec<(String, String)>;

/// The body of a message.
pub type Body = Vec<u8>;

/// A response: its status, its headers in the order in which they were
/// added, and its body.
pub struct Response {
    headers: Headers,
    body: Body,
    status_message: StatusMessage,
}

/// The status line of a response without the version.
enum StatusMessage {
    /// `200 OK`.
    Fixed,
    /// A code and a reason phrase.
    Custom(u16, String),
}

/// A response as a value.
pub struct ResponseView {
    /// Name and value of each header, in the order of the wire.
    pub headers: Seq<(Seq<char>, Seq<char>)>,
    pub body: Seq<u8>,
    /// Code and reason phrase; nothing stands for `200 OK`.
    pub status: Option<(u16, Seq<char>)>,
}

impl View for Response {
    type V = ResponseView;

    closed spec fn view(&self) -> ResponseView {
        ResponseView {
            headers: headers_view(self.headers@),
            body: self.body@,
            status: match self.status_message {
                StatusMessage::Fixed => None,
                StatusMessage::Custom(code, reason) => Some((code, reason@)),
            },
        }
    }
}

/// The number of a status.
pub open spec fn status_code_of(status: Option<(u16, Seq<char>)>) -> u16 {
    match status {
        None => 200,
        Some((code, _)) => code,
    }
}

/// The status of a response on the wire: the code in decimal, a space, the
/// reason phrase.
pub open spec fn status_wire(status: Option<(u16, Seq<char>)>) -> Seq<u8> {
    match status {
        None => encode_utf8("200 OK"@),
        Some((code, reason)) => decimal_bytes(code as nat) + encode_utf8(" "@) + encode_utf8(
            reason,
        ),
    }
}

/// One header on the wire: name, colon and space, value, line end.
pub open spec fn header_wire(header: (Seq<char>, Seq<char>)) -> Seq<u8> {
    encode_utf8(header.0) + encode_utf8(": "@) + encode_utf8(header.1) + encode_utf8("\r\n"@)
}

/// The headers on the wire, one after the other.
pub open spec fn headers_wire(headers: Seq<(Seq<char>, Seq<char>)>) -> Seq<u8>
    decreases headers.len(),
{
    if headers.len() == 0 {
        Seq::empty()
    } else {
        headers_wire(headers.drop_last()) + header_wire(headers.last())
    }
}

/// A response on the wire, sent at `date`: the status line, the `Date`
/// header, the headers, an empty line and the body as it is.
pub open spec fn response_wire(response: ResponseView, date: Seq<char>) -> Seq<u8> {
    encode_utf8("HTTP/1.1 "@) + status_wire(response.status) + encode_utf8("\r\nDate: "@)
        + encode_utf8(date) + encode_utf8("\r\n"@) + headers_wire(response.headers) + encode_utf8(
        "\r\n"@,
    ) + response.body
}

impl Response {
    /// A response with status `200 OK`, no body and the header
    /// `Content-Length: 0`.
    pub fn new() -> (response: Response)
        ensures
            response@ == (ResponseView {
                headers: seq![("Content-Length"@, "0"@)],
                body: Seq::empty(),
                status: Some((200u16, "OK"@)),
            }),
    {
        let status = StatusCode::Okay;
        let reason = match status.canonical_reason() {
            Some(reason) => reason,
            None => "",
        };
        let res = Response {
            headers: Vec::new(),
            body: Vec::new(),
            status_message: StatusMessage::Custom(status.to_u16(), String::from_str(reason)),
        };
        proof {
            assert(res@.headers =~= Seq::empty());
        }
        res.with_header("Content-Length", "0")
    }

    /// The response with `body` in place of its body.
    #[inline]
    pub fn with_body(self, body: Body) -> (response: Response)
        ensures
            response@ == (ResponseView { body: body@, ..self@ }),
    {
        let mut res = self;
        res.body = body;
        proof {
            assert(res@.headers =~= self@.headers);
        }
        res
    }

    /// The response with one more header at the end of its list.
    #[inline]
    pub fn with_header(self, name: &str, val: &str) -> (response: Response)
        ensures
            response@ == (ResponseView { headers: self@.headers.push((name@, val@)), ..self@ }),
    {
        let mut res = self;
        res.headers.push((String::from_str(name), String::from_str(val)));
        proof {
            assert(res@.headers =~= self@.headers.push((name@, val@)));
        }
        res
    }

    /// The response with the number and the reason phrase of `code` as its
    /// status.
    #[inline]
    pub fn with_status(self, code: StatusCode) -> (response: Response)
        ensures
            response@ == (ResponseView {
                status: Some((status_number(code), status_reason(code))),
                ..self@
            }),
    {
        let reason = match code.canonical_reason() {
            Some(reason) => reason,
            None => "",
        };
        let mut res = self;
        res.status_message = StatusMessage::Custom(code.to_u16(), String::from_str(reason));
        proof {
            assert(res@.headers =~= self@.headers);
        }
        res
    }

    /// The number of the status.
    pub fn code(&self) -> (code: u16)
        ensures
            code == status_code_of(self@.status),
    {
        match &self.status_message {
            StatusMessage::Fixed => 200,
            StatusMessage::Custom(code, _) => *code,
        }
    }

    /// The number of bytes of the body.
    pub fn content_length(&self) -> (n: usize)
        ensures
            n == self@.body.len(),
    {
        self.body.len()
    }

    /// The response with `code` and `message` as its status.
    pub fn status_code(self, code: u16, message: &str) -> (response: Response)
        ensures
            response@ == (ResponseView { status: Some((code, message@)), ..self@ }),
    {
        let mut res = self;
        res.status_message = StatusMessage::Custom(code, String::from_str(message));
        proof {
            assert(res@.headers =~= self@.headers);
        }
        res
    }
}

/// `chrono::Utc::now` and `to_rfc2822` on what it returns: the time of the
/// call, written as RFC 2822 has it. Nothing is promised of the text.
#[verifier::external_body]
fn date_now() -> (date: String) {
    chrono::Utc::now().to_rfc2822()
}

/// Appends the response to `buf` as it goes on the wire, with the time of
/// the call in its `Date` header.
pub fn encode(res: Response, buf: &mut Vec<u8>)
    ensures
        exists|date: Seq<char>| final(buf)@ == old(buf)@ + response_wire(res@, date),
{
    let now = date_now();
    encode_at(res, now.as_str(), buf);
}

/// The headers of a list as values.
pub open spec fn headers_view(headers: Seq<(String, String)>) -> Seq<(Seq<char>, Seq<char>)> {
    Seq::new(headers.len(), |i: int| (headers[i].0@, headers[i].1@))
}

/// Appends the status of a response to `buf`.
fn push_status(buf: &mut Vec<u8>, status: &StatusMessage)
    ensures
        final(buf)@ == old(buf)@ + status_wire(
            match *status {
                StatusMessage::Fixed => None,
                StatusMessage::Custom(code, reason) => Some((code, reason@)),
            },
        ),
{
    match status {
        StatusMessage::Fixed => {
            push_bytes(buf, "200 OK".as_bytes());
        },
        StatusMessage::Custom(code, reason) => {
            push_decimal(buf, *code as u64);
            push_bytes(buf, " ".as_bytes());
            push_bytes(buf, reason.as_str().as_bytes());
            proof {
                assert(final(buf)@ =~= old(buf)@ + (decimal_bytes(*code as nat) + encode_utf8(" "@)
                    + encode_utf8(reason@)));
            }
        },
    }
}

/// Appends the headers of a list to `buf`, one after the other.
fn push_headers(buf: &mut Vec<u8>, headers: &Headers)
    ensures
        final(buf)@ == old(buf)@ + headers_wire(headers_view(headers@)),
{
    let ghost all = headers_view(headers@);
    let mut i: usize = 0;
    proof {
        assert(old(buf)@ + headers_wire(all.take(0)) =~= old(buf)@);
    }
    while i < headers.len()
        invariant
            i <= headers@.len(),
            all == headers_view(headers@),
            buf@ == old(buf)@ + headers_wire(all.take(i as int)),
        decreases headers@.len() - i,
    {
        let ghost before = buf@;
        push_bytes(buf, headers[i].0.as_str().as_bytes());
        push_bytes(buf, ": ".as_bytes());
        push_bytes(buf, headers[i].1.as_str().as_bytes());
        push_bytes(buf, "\r\n".as_bytes());
        proof {
            let next = all.take(i + 1);
            let line = header_wire(all[i as int]);
            assert(next.drop_last() =~= all.take(i as int));
            assert(next.last() == all[i as int]);
            assert(buf@ =~= before + line);
            assert(headers_wire(next) == headers_wire(all.take(i as int)) + line);
            assert(before + line =~= old(buf)@ + (headers_wire(all.take(i as int)) + line));
        }
        i += 1;
    }
    proof {
        assert(all.take(i as int) =~= all);
    }
}

/// Appends the response to `buf` as it goes on the wire, with `date` in its
/// `Date` header.
pub fn encode_at(res: Response, date: &str, buf: &mut Vec<u8>)
    ensures
        final(buf)@ == old(buf)@ + response_wire(res@, date@),
{
    push_bytes(buf, "HTTP/1.1 ".as_bytes());
    push_status(buf, &res.status_message);
    push_bytes(buf, "\r\nDate: ".as_bytes());
    push_bytes(buf, date.as_bytes());
    push_bytes(buf, "\r\n".as_bytes());
    push_headers(buf, &res.headers);
    push_bytes(buf, "\r\n".as_bytes());
    push_bytes(buf, res.body.as_slice());
    proof {
        let a = encode_utf8("HTTP/1.1 "@);
        let b = status_wire(res@.status);
        let c = encode_utf8("\r\nDate: "@);
        let d = encode_utf8(date@);
        let e = encode_utf8("\r\n"@);
        let f = headers_wire(res@.headers);
        let g = res@.body;
        assert(final(buf)@ == old(buf)@ + a + b + c + d + e + f + e + g);
        assert(old(buf)@ + a + b + c + d + e + f + e + g =~= old(buf)@ + (a + b + c + d + e + f
            + e + g));
    }
}

} // verus!
