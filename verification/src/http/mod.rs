//! HTTP/1.1: the request, the response and the codec between them and the
//! transport.

pub mod chunk;
pub mod request;
pub mod response;

pub use self::request::Request;
pub use self::response::Response;

use self::request::{
    decode, decode_outcome, header_value, httparse_request, option_text,
    DecodeError, RequestView,
};
use self::response::{encode, response_wire, status_code_of, ResponseView};
use crate::router::Router;
use crate::text::{decimal_bytes, push_bytes, push_decimal, text, text_of};
use vstd::prelude::*;
use vstd::string::StringExecFns;
use vstd::utf8::encode_utf8;

verus! {

/// The line of the access log for one response: the address of the peer,
/// the request line in quotes, the status code, the length of the body, the
/// referrer and the user agent in quotes.
pub open spec fn access_log_line(
    remote_addr: Seq<char>,
    request_line: Seq<char>,
    code: u16,
    content_length: nat,
    referrer: Seq<char>,
    user_agent: Seq<char>,
) -> Seq<char> {
    text(
        encode_utf8(remote_addr) + encode_utf8(" - \""@) + encode_utf8(request_line) + encode_utf8(
            "\" "@,
        ) + decimal_bytes(code as nat) + encode_utf8(" "@) + decimal_bytes(content_length)
            + encode_utf8(" \""@) + encode_utf8(referrer) + encode_utf8("\" \""@) + encode_utf8(
            user_agent,
        ) + encode_utf8("\""@),
    )
}

/// The line of the access log for one response.
pub fn format_access_log_line(
    remote_addr: &str,
    request_line: &str,
    code: u16,
    content_length: usize,
    referrer: &str,
    user_agent: &str,
) -> (line: String)
    ensures
        line@ == access_log_line(
            remote_addr@,
            request_line@,
            code,
            content_length as nat,
            referrer@,
            user_agent@,
        ),
{
    let mut bytes: Vec<u8> = Vec::new();
    push_bytes(&mut bytes, remote_addr.as_bytes());
    push_bytes(&mut bytes, " - \"".as_bytes());
    push_bytes(&mut bytes, request_line.as_bytes());
    push_bytes(&mut bytes, "\" ".as_bytes());
    push_decimal(&mut bytes, code as u64);
    push_bytes(&mut bytes, " ".as_bytes());
    push_decimal(&mut bytes, content_length as u64);
    push_bytes(&mut bytes, " \"".as_bytes());
    push_bytes(&mut bytes, referrer.as_bytes());
    push_bytes(&mut bytes, "\" \"".as_bytes());
    push_bytes(&mut bytes, user_agent.as_bytes());
    push_bytes(&mut bytes, "\"".as_bytes());
    proof {
        assert(bytes@ =~= encode_utf8(remote_addr@) + encode_utf8(" - \""@) + encode_utf8(
            request_line@,
        ) + encode_utf8("\" "@) + decimal_bytes(code as nat) + encode_utf8(" "@) + decimal_bytes(
            content_length as nat,
        ) + encode_utf8(" \""@) + encode_utf8(referrer@) + encode_utf8("\" \""@) + encode_utf8(
            user_agent@,
        ) + encode_utf8("\""@));
    }
    String::from_str(text_of(bytes.as_slice()))
}

/// The codec of one connection: it decodes requests from the bytes that
/// were received and encodes responses, and says what to write to the
/// access log.
pub struct HttpCodec {
    /// A copy of the request that was decoded last.
    request: Option<Request>,
    remote_addr: Option<String>,
    router: Option<Router>,
    /// Whether an access log is kept.
    logging: bool,
}

/// The codec of a connection as a value.
pub struct HttpCodecView {
    /// The request that was decoded last.
    pub request: Option<RequestView>,
    pub remote_addr: Option<Seq<char>>,
    pub routes: Option<Seq<crate::router::route::route::Route>>,
    pub logging: bool,
}

/// The text that the access log has for a text that is absent.
pub open spec fn or_dash(s: Option<Seq<char>>) -> Seq<char> {
    match s {
        Some(s) => s,
        None => "-"@,
    }
}

/// The user agent of a request as the access log has it.
pub open spec fn logged_user_agent(request: Option<RequestView>) -> Seq<char> {
    match request {
        Some(request) => match header_value(request.data, request.headers, "user-agent"@) {
            Some(value) => text(value),
            None => "-"@,
        },
        None => "-"@,
    }
}

/// The request line of a request as the access log has it.
pub open spec fn logged_request_line(request: Option<RequestView>) -> Seq<char> {
    match request {
        Some(request) => request.request_line,
        None => "-"@,
    }
}

/// The line that a codec has for the access log when it encodes `msg`.
pub open spec fn logged_line(codec: HttpCodecView, msg: ResponseView) -> Seq<char> {
    access_log_line(
        or_dash(codec.remote_addr),
        logged_request_line(codec.request),
        status_code_of(msg.status),
        msg.body.len(),
        "-"@,
        logged_user_agent(codec.request),
    )
}

impl View for HttpCodec {
    type V = HttpCodecView;

    closed spec fn view(&self) -> HttpCodecView {
        HttpCodecView {
            request: match self.request {
                Some(request) => Some(request@),
                None => None,
            },
            remote_addr: option_text(self.remote_addr),
            routes: match self.router {
                Some(router) => Some(router.routes@),
                None => None,
            },
            logging: self.logging,
        }
    }
}

impl HttpCodec {
    #[verifier::type_invariant]
    spec fn cached_request_wf(self) -> bool {
        match self.request {
            Some(request) => request.wf(),
            None => true,
        }
    }

    /// The codec of a connection to the peer at `remote_addr`, which has
    /// decoded no request yet.
    pub fn new(remote_addr: Option<String>, router: Option<Router>, logging: bool) -> (codec:
        HttpCodec)
        ensures
            codec@ == (HttpCodecView {
                request: None,
                remote_addr: option_text(remote_addr),
                routes: match router {
                    Some(router) => Some(router.routes@),
                    None => None,
                },
                logging,
            }),
    {
        HttpCodec { request: None, remote_addr, router, logging }
    }

    /// Decodes one request from the front of the received bytes, as
    /// `request::decode` does, with the address of the peer and the router
    /// of this codec. A copy of a request that was decoded is kept.
    pub fn decode(&mut self, buf: &mut Vec<u8>) -> (r: Result<Option<Request>, DecodeError>)
        ensures
            decode_outcome(
                old(buf)@,
                httparse_request(old(buf)@),
                old(self)@.remote_addr,
                old(self)@.routes,
                Seq::empty(),
                r,
                final(buf)@,
            ),
            final(self)@ == (HttpCodecView {
                request: match r {
                    Ok(Some(request)) => Some(request@),
                    _ => old(self)@.request,
                },
                ..old(self)@
            }),
    {
        let remote_addr = match &self.remote_addr {
            Some(addr) => Some(addr.clone()),
            None => None,
        };
        match decode(buf, remote_addr, self.router.as_ref(), String::new()) {
            Ok(req) => {
                match req {
                    Some(req) => {
                        self.request = Some(req.clone());
                        Ok(Some(req))
                    },
                    None => Ok(None),
                }
            },
            Err(e) => Err(e),
        }
    }

    /// Appends `msg` to `buf` as it goes on the wire, with the time of the
    /// call in its `Date` header. Where an access log is kept, the line for
    /// this response is returned. Where the address of the peer, the request
    /// or its user agent is missing, the line has `-` in its place.
    pub fn encode(&mut self, msg: Response, buf: &mut Vec<u8>) -> (line: Option<String>)
        ensures
            exists|date: Seq<char>| final(buf)@ == old(buf)@ + response_wire(msg@, date),
            final(self)@ == old(self)@,
            match line {
                Some(line) => old(self)@.logging && line@ == logged_line(old(self)@, msg@),
                None => !old(self)@.logging,
            },
    {
        proof {
            use_type_invariant(&*self);
        }
        let code: u16 = msg.code();
        let content_length: usize = msg.content_length();
        let ghost response = msg@;
        encode(msg, buf);
        if self.logging {
            let referrer = "-";
            let remote_addr: &str = match &self.remote_addr {
                Some(val) => val.as_str(),
                None => "-",
            };
            let (request_line, user_agent): (&str, &str) = match &self.request {
                Some(request) => (
                    request.request_line(),
                    match request.user_agent() {
                        Some(agent) => agent,
                        None => "-",
                    },
                ),
                None => ("-", "-"),
            };
            Some(
                format_access_log_line(
                    remote_addr,
                    request_line,
                    code,
                    content_length,
                    referrer,
                    user_agent,
                ),
            )
        } else {
            None
        }
    }
}

} // verus!
