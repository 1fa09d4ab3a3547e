//! The request, decoded into offsets over the bytes that were received.

use crate::method::{method_of, Method, MethodView};
use crate::router::handlers::Handler;
use crate::router::route::route::Route;
use crate::router::{route_handler, Router};
use crate::text::{
    decimal_bytes, decimal_of, eq_ascii, eq_ignore_ascii_case, find_byte, find_bytes,
    first_byte, first_occurrence, lemma_first_at, parse_decimal, push_bytes, push_decimal,
    bytes_eq, text, text_of, trim, trimmed, utf8_str,
};
use httparse::{Status, EMPTY_HEADER};
use vstd::prelude::*;
use vstd::slice::slice_subrange;
use vstd::string::StringExecFns;
use vstd::utf8::{encode_utf8, valid_utf8};

verus! {

/// A range of the received bytes: where it starts and where it ends. The
/// range `(0, 0)` stands for a part that is absent.
pub type Slice = (usize, usize);

/// A part of the received bytes: where it starts and how long it is.
pub type Span = (usize, usize);

/// The bytes of a range.
pub open spec fn slice_bytes(data: Seq<u8>, slice: Slice) -> Seq<u8> {
    data.subrange(slice.0 as int, slice.1 as int)
}

/// Whether a range lies in the first `limit` bytes.
pub open spec fn slice_within(slice: Slice, limit: int) -> bool {
    slice.0 <= slice.1 <= limit
}

/// Whether a part lies in the first `limit` bytes.
pub open spec fn span_within(span: Span, limit: int) -> bool {
    span.0 + span.1 <= limit
}

/// The range of a part.
pub open spec fn span_slice(span: Span) -> Slice {
    (span.0, (span.0 + span.1) as usize)
}

/// The head of a request as the header-line parser found it: the request
/// line and the headers, as parts of the bytes that were parsed.
#[derive(Debug, PartialEq, Eq)]
pub struct Head {
    /// Bytes of the head: the body starts there.
    pub len: usize,
    pub method: Span,
    /// The request target as it stands in the request line.
    pub path: Span,
    /// The minor version: `1` for `HTTP/1.1`.
    pub version: u8,
    /// Name and value of each header, in the order of the wire.
    pub headers: Vec<(Span, Span)>,
}

/// A head as a value.
pub struct HeadView {
    pub len: usize,
    pub method: Span,
    pub path: Span,
    pub version: u8,
    pub headers: Seq<(Span, Span)>,
}

impl View for Head {
    type V = HeadView;

    open spec fn view(&self) -> HeadView {
        HeadView {
            len: self.len,
            method: self.method,
            path: self.path,
            version: self.version,
            headers: self.headers@,
        }
    }
}

/// What the header-line parser makes of received bytes.
pub enum HeadOutcome {
    /// The head is all there.
    Complete(HeadView),
    /// The bytes are the start of a head; more are needed.
    Partial,
    /// The bytes are no head of a request. The text names the fault.
    Malformed(Seq<char>),
}

/// What `httparse::Request::parse` makes of `buf`, with room for sixteen
/// headers.
pub uninterp spec fn httparse_request(buf: Seq<u8>) -> HeadOutcome;

/// Whether every part of a head lies in the head, and the head in the first
/// `limit` bytes.
pub open spec fn head_within(head: HeadView, limit: int) -> bool {
    &&& head.len <= limit
    &&& span_within(head.method, head.len as int)
    &&& span_within(head.path, head.len as int)
    &&& forall|i: int|
        0 <= i < head.headers.len() ==> span_within((#[trigger] head.headers[i]).0, head.len as int)
            && span_within(head.headers[i].1, head.len as int)
}

/// `httparse::Request::new` and `parse` on it, with room for sixteen
/// headers: the head at the start of `buf`, nothing where `buf` holds only
/// the start of one, or the name of the fault that makes the bytes no head.
/// The outcome depends on the bytes alone. The method, the target and the
/// name and value of each header are parts of `buf` that lie in the head,
/// and the head's length is at most that of `buf`.
#[verifier::external_body]
fn parse_head(buf: &[u8]) -> (r: Result<Option<Head>, String>)
    ensures
        match r {
            Ok(Some(head)) => httparse_request(buf@) == HeadOutcome::Complete(head@)
                && head_within(head@, buf@.len() as int),
            Ok(None) => httparse_request(buf@) == HeadOutcome::Partial,
            Err(fault) => httparse_request(buf@) == HeadOutcome::Malformed(fault@),
        },
{
    let mut slots = [EMPTY_HEADER; 16];
    let mut req = httparse::Request::new(&mut slots);
    let at = |part: &[u8]| (part.as_ptr() as usize - buf.as_ptr() as usize, part.len());
    let Status::Complete(len) = req.parse(buf).map_err(|fault| format!("{fault:?}"))? else {
        return Ok(None);
    };
    Ok(Some(Head {
        len,
        method: at(req.method.unwrap().as_bytes()),
        path: at(req.path.unwrap().as_bytes()),
        version: req.version.unwrap(),
        headers: req.headers.iter().map(|h| (at(h.name.as_bytes()), at(h.value))).collect(),
    }))
}

/// Whether the name of a header is `key` but for the case of ASCII letters.
pub open spec fn name_matches(name: Seq<u8>, key: Seq<char>) -> bool {
    valid_utf8(name) && eq_ignore_ascii_case(name, encode_utf8(key))
}

/// The first header from `from` on whose name matches `key`.
pub open spec fn header_from(
    data: Seq<u8>,
    headers: Seq<(Slice, Slice)>,
    key: Seq<char>,
    from: int,
) -> Option<int>
    decreases headers.len() - from + 1,
{
    if from < 0 || from >= headers.len() {
        None
    } else if name_matches(slice_bytes(data, headers[from].0), key) {
        Some(from)
    } else {
        header_from(data, headers, key, from + 1)
    }
}

/// The value of the first header whose name matches `key`.
pub open spec fn header_value(data: Seq<u8>, headers: Seq<(Slice, Slice)>, key: Seq<char>) -> Option<
    Seq<u8>,
> {
    match header_from(data, headers, key, 0) {
        Some(i) => Some(slice_bytes(data, headers[i].1)),
        None => None,
    }
}

/// Whether every name and value of a header list lies in the first `limit`
/// bytes.
pub open spec fn headers_within(headers: Seq<(Slice, Slice)>, limit: int) -> bool {
    forall|i: int|
        0 <= i < headers.len() ==> slice_within((#[trigger] headers[i]).0, limit) && slice_within(
            headers[i].1,
            limit,
        )
}

/// The value of the first header whose name matches `key`.
fn find_header<'a>(data: &'a [u8], headers: &Vec<(Slice, Slice)>, key: &str) -> (r: Option<
    &'a [u8],
>)
    requires
        headers_within(headers@, data@.len() as int),
    ensures
        match r {
            Some(value) => header_value(data@, headers@, key@) == Some(value@),
            None => header_value(data@, headers@, key@) is None,
        },
{
    let mut i: usize = 0;
    while i < headers.len()
        invariant
            i <= headers@.len(),
            headers_within(headers@, data@.len() as int),
            header_from(data@, headers@, key@, 0) == header_from(data@, headers@, key@, i as int),
        decreases headers@.len() - i,
    {
        let name = slice_subrange(data, headers[i].0.0, headers[i].0.1);
        let found = match utf8_str(name) {
            Some(name) => eq_ascii(name, key),
            None => false,
        };
        if found {
            return Some(slice_subrange(data, headers[i].1.0, headers[i].1.1));
        }
        i += 1;
    }
    None
}

/// The ranges of the names and values of a head's headers.
pub open spec fn head_slices(head: HeadView) -> Seq<(Slice, Slice)> {
    Seq::new(
        head.headers.len(),
        |i: int| (span_slice(head.headers[i].0), span_slice(head.headers[i].1)),
    )
}

/// The value of the first header whose name matches `key`, as decoding
/// takes it: a value that is empty or no UTF-8 counts as absent.
pub open spec fn header_text(data: Seq<u8>, headers: Seq<(Slice, Slice)>, key: Seq<char>) -> Option<
    Seq<u8>,
> {
    match header_value(data, headers, key) {
        Some(value) => if valid_utf8(value) && value.len() > 0 {
            Some(value)
        } else {
            None
        },
        None => None,
    }
}

/// The bytes of the method of a head.
pub open spec fn method_bytes(buf: Seq<u8>, head: HeadView) -> Seq<u8> {
    slice_bytes(buf, span_slice(head.method))
}

/// The bytes of the request target of a head: the path and the query.
pub open spec fn target_bytes(buf: Seq<u8>, head: HeadView) -> Seq<u8> {
    slice_bytes(buf, span_slice(head.path))
}

/// The content type of a request. For POST and PUT it is the value of
/// `Content-Type`, or `application/octet-stream` without one; for every
/// other method the value of `Accept`, or `text/plain` without one.
pub open spec fn content_type_of(buf: Seq<u8>, head: HeadView) -> Seq<u8> {
    let method = method_bytes(buf, head);
    if method == encode_utf8("POST"@) || method == encode_utf8("PUT"@) {
        match header_text(buf, head_slices(head), "content-type"@) {
            Some(value) => value,
            None => encode_utf8("application/octet-stream"@),
        }
    } else {
        match header_text(buf, head_slices(head), "accept"@) {
            Some(value) => value,
            None => encode_utf8("text/plain"@),
        }
    }
}

/// The metadata of a content type: what follows its first `;`, trimmed, and
/// nothing where it has no `;`.
pub open spec fn metadata_of(content_type: Seq<u8>) -> Seq<char> {
    match first_byte(content_type, 0x3b) {
        Some(i) => trimmed(text(content_type.skip(i + 1))),
        None => Seq::empty(),
    }
}

/// The length of the body: the number in `Content-Length`, and `0` where
/// the header is absent or holds no number.
pub open spec fn content_length_of(buf: Seq<u8>, head: HeadView) -> usize {
    match header_text(buf, head_slices(head), "content-length"@) {
        Some(value) => match decimal_of(value) {
            Some(n) => n,
            None => 0,
        },
        None => 0,
    }
}

/// The bytes of a request: those of its head and those of its body.
pub open spec fn total_len(buf: Seq<u8>, head: HeadView) -> int {
    head.len + content_length_of(buf, head)
}

/// The range of the path: the request target up to its first `?`.
pub open spec fn path_of(buf: Seq<u8>, head: HeadView) -> Slice {
    let target = span_slice(head.path);
    match first_byte(target_bytes(buf, head), 0x3f) {
        Some(i) => (target.0, (target.0 + i) as usize),
        None => target,
    }
}

/// The range of the query: the request target after its first `?`, and the
/// absent range where it has no `?`.
pub open spec fn query_of(buf: Seq<u8>, head: HeadView) -> Slice {
    let target = span_slice(head.path);
    match first_byte(target_bytes(buf, head), 0x3f) {
        Some(i) => ((target.0 + i + 1) as usize, target.1),
        None => (0, 0),
    }
}

/// The range of the body, and the absent range for a body of no bytes.
pub open spec fn payload_of(buf: Seq<u8>, head: HeadView) -> Slice {
    if content_length_of(buf, head) > 0 {
        (head.len, total_len(buf, head) as usize)
    } else {
        (0, 0)
    }
}

/// The host of a request: the value of `Host`.
pub open spec fn host_of(buf: Seq<u8>, head: HeadView) -> Seq<char> {
    match header_text(buf, head_slices(head), "host"@) {
        Some(value) => text(value),
        None => Seq::empty(),
    }
}

/// The absolute URI of a request: the scheme `http`, `://`, the host and
/// the request target.
pub open spec fn uri_of(buf: Seq<u8>, head: HeadView) -> Seq<char> {
    text(
        encode_utf8("http"@) + encode_utf8("://"@) + encode_utf8(host_of(buf, head))
            + target_bytes(buf, head),
    )
}

/// The request line: method, target and version, with one space between.
pub open spec fn request_line_of(buf: Seq<u8>, head: HeadView) -> Seq<char> {
    text(
        method_bytes(buf, head) + encode_utf8(" "@) + target_bytes(buf, head) + encode_utf8(
            " HTTP/1."@,
        ) + decimal_bytes(head.version as nat),
    )
}

/// The handler that the routes give for a request: that of the first route
/// which matches its path and serves its method. Without routes there is
/// none.
pub open spec fn handler_of(routes: Option<Seq<Route>>, buf: Seq<u8>, head: HeadView) -> Option<
    Handler,
> {
    match routes {
        Some(routes) => {
            let name = text(method_bytes(buf, head));
            if name.len() == 0 {
                None
            } else {
                route_handler(
                    routes,
                    method_of(name),
                    text(slice_bytes(buf, path_of(buf, head))),
                )
            }
        },
        None => None,
    }
}

/// A request as a value.
pub struct RequestView {
    pub content_length: usize,
    /// The content type with its metadata.
    pub content_type: Seq<char>,
    pub content_type_metadata: Seq<char>,
    pub host: Seq<char>,
    pub method: Slice,
    pub password: Seq<char>,
    pub path: Slice,
    pub payload: Slice,
    pub query: Slice,
    pub request_line: Seq<char>,
    pub scheme: Seq<char>,
    pub uri: Seq<char>,
    pub username: Seq<char>,
    pub version: u8,
    pub remote_addr: Option<Seq<char>>,
    pub headers: Seq<(Slice, Slice)>,
    /// The bytes of the request: its head and its body.
    pub data: Seq<u8>,
    /// The number of bytes of `data` that were read from the request.
    pub read: nat,
    pub handler: Option<Handler>,
    pub base_path: Seq<char>,
}

/// The request that a head and the bytes which it was parsed from give.
pub open spec fn decoded_request(
    buf: Seq<u8>,
    head: HeadView,
    remote_addr: Option<Seq<char>>,
    routes: Option<Seq<Route>>,
    base_path: Seq<char>,
) -> RequestView {
    RequestView {
        content_length: content_length_of(buf, head),
        content_type: text(content_type_of(buf, head)),
        content_type_metadata: metadata_of(content_type_of(buf, head)),
        host: host_of(buf, head),
        method: span_slice(head.method),
        password: Seq::empty(),
        path: path_of(buf, head),
        payload: payload_of(buf, head),
        query: query_of(buf, head),
        request_line: request_line_of(buf, head),
        scheme: "http"@,
        uri: uri_of(buf, head),
        username: Seq::empty(),
        version: head.version,
        remote_addr,
        headers: head_slices(head),
        data: buf.take(total_len(buf, head)),
        read: 0,
        handler: handler_of(routes, buf, head),
        base_path,
    }
}

/// Whether the ranges of a request lie in its bytes.
pub open spec fn request_within(request: RequestView) -> bool {
    &&& slice_within(request.method, request.data.len() as int)
    &&& slice_within(request.path, request.data.len() as int)
    &&& slice_within(request.payload, request.data.len() as int)
    &&& slice_within(request.query, request.data.len() as int)
    &&& headers_within(request.headers, request.data.len() as int)
    &&& request.read <= request.data.len()
}

/// The text of a string that may be absent.
pub open spec fn option_text(s: Option<String>) -> Option<Seq<char>> {
    match s {
        Some(s) => Some(s@),
        None => None,
    }
}

/// The routes of a router that may be absent.
pub open spec fn option_routes(router: Option<&Router>) -> Option<Seq<Route>> {
    match router {
        Some(router) => Some(router.routes@),
        None => None,
    }
}

/// The bytes of a request and the place up to which they were read.
#[derive(Debug)]
struct ReqReader {
    inner: Vec<u8>,
    pos: usize,
    cap: usize,
}

impl ReqReader {
    spec fn wf(&self) -> bool {
        self.pos <= self.cap && self.cap == self.inner@.len()
    }

    fn new(inner: Vec<u8>) -> (reader: ReqReader)
        ensures
            reader.wf(),
            reader.inner@ == inner@,
            reader.pos == 0,
    {
        let cap: usize = inner.len();
        ReqReader { inner, pos: 0, cap }
    }

    fn consume(&mut self, amt: usize)
        requires
            old(self).wf(),
        ensures
            final(self).wf(),
            final(self).inner@ == old(self).inner@,
            final(self).pos == if old(self).pos + amt <= old(self).cap {
                (old(self).pos + amt) as usize
            } else {
                old(self).cap
            },
    {
        self.pos = if amt <= self.cap - self.pos {
            self.pos + amt
        } else {
            self.cap
        };
    }

    fn reset(&mut self)
        ensures
            final(self).wf(),
            final(self).inner@ == old(self).inner@,
            final(self).pos == 0,
    {
        self.pos = 0;
        self.cap = self.inner.len();
    }

    fn as_slice(&self) -> (bytes: &[u8])
        ensures
            bytes@ == self.inner@,
    {
        self.inner.as_slice()
    }

    /// Copies to the start of `buf` the bytes that were not read yet, as
    /// far as `buf` has room, and counts them as read.
    fn read(&mut self, buf: &mut [u8]) -> (n: usize)
        requires
            old(self).wf(),
        ensures
            final(self).wf(),
            final(self).inner@ == old(self).inner@,
            n == read_len(old(self).inner@, old(self).pos as nat, old(buf)@.len()),
            final(self).pos == old(self).pos + n,
            final(buf)@ == old(self).inner@.subrange(old(self).pos as int, old(self).pos + n)
                + old(buf)@.skip(n as int),
    {
        let room: usize = buf.len();
        let left: usize = self.cap - self.pos;
        let len: usize = if room < left {
            room
        } else {
            left
        };
        let mut i: usize = 0;
        while i < len
            invariant
                i <= len,
                len <= buf@.len(),
                self.wf(),
                self.pos + len <= self.cap,
                buf@.len() == old(buf)@.len(),
                *self == *old(self),
                forall|k: int| 0 <= k < i ==> buf@[k] == self.inner@[self.pos + k],
                forall|k: int| i <= k < buf@.len() ==> buf@[k] == old(buf)@[k],
            decreases len - i,
        {
            buf[i] = self.inner[self.pos + i];
            i += 1;
        }
        proof {
            assert(buf@ =~= old(self).inner@.subrange(old(self).pos as int, old(self).pos + len)
                + old(buf)@.skip(len as int));
        }
        self.consume(len);
        len
    }
}

/// The number of bytes that one read takes from `data`, of which `read`
/// were read before, into a buffer of `room` bytes.
pub open spec fn read_len(data: Seq<u8>, read: nat, room: nat) -> nat {
    if room < data.len() - read {
        room
    } else {
        (data.len() - read) as nat
    }
}

/// A request. Its method, path, query, payload and headers are ranges of
/// the bytes that it was decoded from, which it keeps.
#[derive(Debug)]
pub struct Request {
    content_length: usize,
    content_type: String,
    content_type_metadata: String,
    host: String,
    method: Slice,
    password: String,
    path: Slice,
    payload: Slice,
    query: Slice,
    request_line: String,
    scheme: String,
    uri: String,
    username: String,
    version: u8,
    remote_addr: Option<String>,
    headers: Vec<(Slice, Slice)>,
    data: ReqReader,
    /// The handler that the router found for the request when it was
    /// decoded.
    handler: Option<Handler>,
    /// The directory on the server that requests are served from.
    pub base_path: String,
}

impl View for Request {
    type V = RequestView;

    closed spec fn view(&self) -> RequestView {
        RequestView {
            content_length: self.content_length,
            content_type: self.content_type@,
            content_type_metadata: self.content_type_metadata@,
            host: self.host@,
            method: self.method,
            password: self.password@,
            path: self.path,
            payload: self.payload,
            query: self.query,
            request_line: self.request_line@,
            scheme: self.scheme@,
            uri: self.uri@,
            username: self.username@,
            version: self.version,
            remote_addr: option_text(self.remote_addr),
            headers: self.headers@,
            data: self.data.inner@,
            read: self.data.pos as nat,
            handler: self.handler,
            base_path: self.base_path@,
        }
    }
}

impl Request {
    /// Whether the ranges of the request lie in its bytes.
    pub closed spec fn wf(&self) -> bool {
        request_within(self@) && self.data.wf()
    }
}

impl ReqReader {
    fn duplicate(&self) -> (reader: ReqReader)
        ensures
            reader.inner@ == self.inner@,
            reader.pos == self.pos,
            reader.cap == self.cap,
    {
        ReqReader {
            inner: vstd::slice::slice_to_vec(self.inner.as_slice()),
            pos: self.pos,
            cap: self.cap,
        }
    }
}

impl Clone for Request {
    /// A copy of the request, with bytes of its own.
    fn clone(&self) -> (request: Request)
        ensures
            request@ == self@,
            self.wf() ==> request.wf(),
    {
        Request {
            content_length: self.content_length,
            content_type: self.content_type.clone(),
            content_type_metadata: self.content_type_metadata.clone(),
            host: self.host.clone(),
            method: self.method,
            password: self.password.clone(),
            path: self.path,
            payload: self.payload,
            query: self.query,
            request_line: self.request_line.clone(),
            scheme: self.scheme.clone(),
            uri: self.uri.clone(),
            username: self.username.clone(),
            version: self.version,
            remote_addr: match &self.remote_addr {
                Some(addr) => Some(addr.clone()),
                None => None,
            },
            headers: vstd::slice::slice_to_vec(self.headers.as_slice()),
            data: self.data.duplicate(),
            handler: self.handler,
            base_path: self.base_path.clone(),
        }
    }
}

/// The error of decoding a request: the bytes are no request.
#[derive(Debug)]
pub struct DecodeError {
    /// What is wrong with the bytes.
    pub message: String,
}

/// What decoding makes of the received bytes `buf`, given what the
/// header-line parser makes of them: whether it `consumed` bytes and left
/// `rest`, and which request or error it gave.
///
/// Bytes that are no head give the error, and a head that is not all there
/// gives nothing; both leave the bytes as they are. So does a head whose
/// body is not all there. A request that is all there is given, and its
/// bytes, those of the head and as many as `Content-Length` says, are taken
/// from the front of the buffer.
pub open spec fn decode_outcome(
    buf: Seq<u8>,
    parsed: HeadOutcome,
    remote_addr: Option<Seq<char>>,
    routes: Option<Seq<Route>>,
    base_path: Seq<char>,
    r: Result<Option<Request>, DecodeError>,
    rest: Seq<u8>,
) -> bool {
    match parsed {
        HeadOutcome::Malformed(fault) => {
            &&& r is Err
            &&& r->Err_0.message@ == "failed to parse http request: "@ + fault
            &&& rest == buf
        },
        HeadOutcome::Partial => r == Ok::<Option<Request>, DecodeError>(None) && rest == buf,
        HeadOutcome::Complete(head) => r is Ok && assembled(
            buf,
            head,
            remote_addr,
            routes,
            base_path,
            r->Ok_0,
            rest,
        ),
    }
}

/// What a head that is all there gives: nothing, and the bytes as they
/// are, where fewer bytes are there than the head and the body have; else
/// the request, and the bytes after it.
pub open spec fn assembled(
    buf: Seq<u8>,
    head: HeadView,
    remote_addr: Option<Seq<char>>,
    routes: Option<Seq<Route>>,
    base_path: Seq<char>,
    r: Option<Request>,
    rest: Seq<u8>,
) -> bool {
    if total_len(buf, head) > buf.len() {
        r is None && rest == buf
    } else {
        &&& r is Some
        &&& r->Some_0.wf()
        &&& r->Some_0@ == decoded_request(buf, head, remote_addr, routes, base_path)
        &&& rest == buf.skip(total_len(buf, head))
    }
}

/// The value of the first header whose name matches `key`; a value that is
/// empty or no UTF-8 counts as absent.
fn header<'a>(data: &'a [u8], headers: &Vec<(Slice, Slice)>, key: &str) -> (r: Option<&'a [u8]>)
    requires
        headers_within(headers@, data@.len() as int),
    ensures
        match r {
            Some(value) => header_text(data@, headers@, key@) == Some(value@),
            None => header_text(data@, headers@, key@) is None,
        },
{
    match find_header(data, headers, key) {
        Some(value) => {
            if value.len() == 0 {
                return None;
            }
            match utf8_str(value) {
                Some(_) => Some(value),
                None => None,
            }
        },
        None => None,
    }
}

/// The ranges of the names and values of a head's headers.
fn slices_of(head: &Head, limit: usize) -> (slices: Vec<(Slice, Slice)>)
    requires
        head_within(head@, limit as int),
    ensures
        slices@ == head_slices(head@),
        headers_within(slices@, head.len as int),
{
    let mut slices: Vec<(Slice, Slice)> = Vec::new();
    let mut i: usize = 0;
    while i < head.headers.len()
        invariant
            i <= head.headers@.len(),
            head_within(head@, limit as int),
            slices@.len() == i,
            forall|k: int|
                0 <= k < i ==> slices@[k] == (
                    span_slice(head.headers@[k].0),
                    span_slice(head.headers@[k].1),
                ),
        decreases head.headers@.len() - i,
    {
        let name: Span = head.headers[i].0;
        let value: Span = head.headers[i].1;
        proof {
            assert(span_within(head@.headers[i as int].0, head.len as int));
            assert(span_within(head@.headers[i as int].1, head.len as int));
        }
        slices.push(((name.0, name.0 + name.1), (value.0, value.0 + value.1)));
        i += 1;
    }
    proof {
        assert(slices@ =~= head_slices(head@));
    }
    slices
}

/// The content type of a request, as `content_type_of` has it.
fn content_type_bytes<'a>(data: &'a [u8], head: &Head, headers: &Vec<(Slice, Slice)>) -> (r: &'a [u8])
    requires
        head_within(head@, data@.len() as int),
        headers@ == head_slices(head@),
        headers_within(headers@, data@.len() as int),
    ensures
        r@ == content_type_of(data@, head@),
{
    let method = slice_subrange(data, head.method.0, head.method.0 + head.method.1);
    if bytes_eq(method, "POST".as_bytes()) || bytes_eq(method, "PUT".as_bytes()) {
        match header(data, headers, "content-type") {
            Some(value) => value,
            None => "application/octet-stream".as_bytes(),
        }
    } else {
        match header(data, headers, "accept") {
            Some(value) => value,
            None => "text/plain".as_bytes(),
        }
    }
}

/// The metadata of a content type, as `metadata_of` has it.
fn metadata(content_type: &[u8]) -> (r: String)
    ensures
        r@ == metadata_of(content_type@),
{
    let len: usize = content_type.len();
    match find_byte(content_type, 0x3b) {
        Some(index) => {
            let rest = slice_subrange(content_type, index + 1, len);
            String::from_str(trim(text_of(rest)))
        },
        None => String::new(),
    }
}

/// The handler that `router` gives for a method and a path.
fn resolve(router: Option<&Router>, method: &[u8], path: &[u8]) -> (r: Option<Handler>)
    ensures
        r == match option_routes(router) {
            Some(routes) => if text(method@).len() == 0 {
                None
            } else {
                route_handler(routes, method_of(text(method@)), text(path@))
            },
            None => None,
        },
{
    match router {
        Some(router) => match Method::from_str(text_of(method)) {
            Ok(m) => router.find_handler_with_method_and_path(m, text_of(path)),
            Err(_) => None,
        },
        None => None,
    }
}

/// The request that `head` announces at the start of `buf`. Where its head
/// and body are all there, their bytes are taken from the front of `buf`
/// and kept in the request; else `buf` stays as it is and nothing is given.
pub fn assemble(
    buf: &mut Vec<u8>,
    head: Head,
    remote_addr: Option<String>,
    router: Option<&Router>,
    base_path: String,
) -> (r: Option<Request>)
    requires
        head_within(head@, old(buf)@.len() as int),
    ensures
        assembled(
            old(buf)@,
            head@,
            option_text(remote_addr),
            option_routes(router),
            base_path@,
            r,
            final(buf)@,
        ),
{
    let data: &[u8] = buf.as_slice();
    let headers = slices_of(&head, data.len());
    let method: Slice = (head.method.0, head.method.0 + head.method.1);
    let target: Slice = (head.path.0, head.path.0 + head.path.1);
    let method_part = slice_subrange(data, method.0, method.1);
    let target_part = slice_subrange(data, target.0, target.1);

    let host: String = match header(data, &headers, "host") {
        Some(value) => String::from_str(text_of(value)),
        None => String::new(),
    };
    let content_type_part = content_type_bytes(data, &head, &headers);
    let content_type = String::from_str(text_of(content_type_part));
    let content_type_metadata = metadata(content_type_part);
    let content_length: usize = match header(data, &headers, "content-length") {
        Some(value) => match parse_decimal(value) {
            Some(n) => n,
            None => 0,
        },
        None => 0,
    };
    if content_length > data.len() - head.len {
        return None;
    }
    // The bytes of the head and of the body.
    let amt: usize = head.len + content_length;
    let payload: Slice = if content_length > 0 {
        (head.len, amt)
    } else {
        (0, 0)
    };
    let (path, query): (Slice, Slice) = match find_byte(target_part, 0x3f) {
        Some(index) => ((target.0, target.0 + index), (target.0 + index + 1, target.1)),
        None => (target, (0, 0)),
    };

    let mut uri_bytes: Vec<u8> = Vec::new();
    push_bytes(&mut uri_bytes, "http".as_bytes());
    push_bytes(&mut uri_bytes, "://".as_bytes());
    push_bytes(&mut uri_bytes, host.as_str().as_bytes());
    push_bytes(&mut uri_bytes, target_part);
    proof {
        assert(uri_bytes@ =~= encode_utf8("http"@) + encode_utf8("://"@) + encode_utf8(host@)
            + target_part@);
    }
    let uri = String::from_str(text_of(uri_bytes.as_slice()));

    let mut line_bytes: Vec<u8> = Vec::new();
    push_bytes(&mut line_bytes, method_part);
    push_bytes(&mut line_bytes, " ".as_bytes());
    push_bytes(&mut line_bytes, target_part);
    push_bytes(&mut line_bytes, " HTTP/1.".as_bytes());
    push_decimal(&mut line_bytes, head.version as u64);
    proof {
        assert(line_bytes@ =~= method_part@ + encode_utf8(" "@) + target_part@ + encode_utf8(
            " HTTP/1."@,
        ) + decimal_bytes(head.version as nat));
    }
    let request_line = String::from_str(text_of(line_bytes.as_slice()));

    let handler = resolve(router, method_part, slice_subrange(data, path.0, path.1));

    let mut taken = buf.split_off(amt);
    std::mem::swap(buf, &mut taken);
    proof {
        assert(final(buf)@ =~= old(buf)@.skip(amt as int));
        assert(taken@ =~= old(buf)@.take(amt as int));
    }
    let res = Request {
        base_path,
        content_length,
        content_type,
        content_type_metadata,
        host,
        method,
        password: String::new(),
        path,
        payload,
        query,
        remote_addr,
        request_line,
        scheme: String::from_str("http"),
        uri,
        username: String::new(),
        version: head.version,
        headers,
        data: ReqReader::new(taken),
        handler,
    };
    proof {
        let expected = decoded_request(
            old(buf)@,
            head@,
            option_text(remote_addr),
            option_routes(router),
            base_path@,
        );
        assert(res@.username =~= expected.username);
        assert(res@.password =~= expected.password);
        assert(res@.host == expected.host);
        assert(res@.headers == expected.headers);
        assert(res@.data == expected.data);
        assert(res@.handler == expected.handler);
        assert(res@ == expected);
    }
    Some(res)
}

/// Decodes one request from the front of the received bytes.
///
/// Bytes that are no request give the error. Nothing is given, and `buf`
/// stays as it is, as long as the head or the body is not all there. A
/// request that is all there is given, and its bytes are taken from the
/// front of `buf`: what follows them stays for the next call.
pub fn decode(
    buf: &mut Vec<u8>,
    remote_addr: Option<String>,
    router: Option<&Router>,
    base_path: String,
) -> (r: Result<Option<Request>, DecodeError>)
    ensures
        decode_outcome(
            old(buf)@,
            httparse_request(old(buf)@),
            option_text(remote_addr),
            option_routes(router),
            base_path@,
            r,
            final(buf)@,
        ),
{
    match parse_head(buf.as_slice()) {
        Err(fault) => Err(
            DecodeError {
                message: String::from_str("failed to parse http request: ").concat(fault.as_str()),
            },
        ),
        Ok(None) => Ok(None),
        Ok(Some(head)) => Ok(assemble(buf, head, remote_addr, router, base_path)),
    }
}

/// The part of a content type before its first `;`: the content type
/// without its metadata.
pub open spec fn media_type_of(content_type: Seq<char>) -> Seq<char> {
    match first_byte(encode_utf8(content_type), 0x3b) {
        Some(i) => text(encode_utf8(content_type).take(i)),
        None => content_type,
    }
}

/// The boundary of a multipart body: what follows `boundary=` in the
/// metadata of the content type.
pub open spec fn boundary_of(metadata: Seq<char>) -> Option<Seq<char>> {
    match first_occurrence(encode_utf8(metadata), encode_utf8("boundary="@)) {
        Some(i) => Some(text(encode_utf8(metadata).skip(i + encode_utf8("boundary="@).len()))),
        None => None,
    }
}

/// The method of a request: the one that the bytes of its method name, and
/// GET where they name none.
pub open spec fn request_method(request: RequestView) -> MethodView {
    let name = text(slice_bytes(request.data, request.method));
    if name.len() == 0 {
        MethodView::Get
    } else {
        method_of(name)
    }
}

/// The header of a request at `index`: its name as text, and its value.
pub open spec fn header_entry(request: RequestView, index: int) -> (Seq<char>, Seq<u8>) {
    (
        text(slice_bytes(request.data, request.headers[index].0)),
        slice_bytes(request.data, request.headers[index].1),
    )
}

/// The pairs of name and value that `url::form_urlencoded::parse` reads from
/// a query string, in their order.
pub uninterp spec fn urlencoded_pairs(input: Seq<u8>) -> Seq<(Seq<char>, Seq<char>)>;

/// The pairs of a list as values.
pub open spec fn pairs_view(pairs: Seq<(String, String)>) -> Seq<(Seq<char>, Seq<char>)> {
    Seq::new(pairs.len(), |i: int| (pairs[i].0@, pairs[i].1@))
}

/// `url::form_urlencoded::parse` and `into_owned` on what it returns,
/// collected: the pairs of name and value in a query string, decoded, in
/// their order. They depend on the bytes alone.
#[verifier::external_body]
fn parse_urlencoded(input: &[u8]) -> (pairs: Vec<(String, String)>)
    ensures
        pairs_view(pairs@) == urlencoded_pairs(input@),
{
    url::form_urlencoded::parse(input).into_owned().collect()
}

/// The place of the key `key` in a list of keys with their values.
pub open spec fn key_index(groups: Seq<(Seq<char>, Seq<Seq<char>>)>, key: Seq<char>, from: int) -> Option<
    int,
>
    decreases groups.len() - from + 1,
{
    if from < 0 || from >= groups.len() {
        None
    } else if groups[from].0 == key {
        Some(from)
    } else {
        key_index(groups, key, from + 1)
    }
}

/// A list of keys with their values after one more pair: the value joins
/// those of its key, or the key comes last with this one value.
pub open spec fn with_pair(
    groups: Seq<(Seq<char>, Seq<Seq<char>>)>,
    pair: (Seq<char>, Seq<char>),
) -> Seq<(Seq<char>, Seq<Seq<char>>)> {
    match key_index(groups, pair.0, 0) {
        Some(i) => groups.update(i, (pair.0, groups[i].1.push(pair.1))),
        None => groups.push((pair.0, seq![pair.1])),
    }
}

/// The keys of a list of pairs, each once and in the order in which they
/// first come, each with all its values in their order.
pub open spec fn combined(pairs: Seq<(Seq<char>, Seq<char>)>) -> Seq<(Seq<char>, Seq<Seq<char>>)>
    decreases pairs.len(),
{
    if pairs.len() == 0 {
        Seq::empty()
    } else {
        with_pair(combined(pairs.drop_last()), pairs.last())
    }
}

/// The values of a list as values.
pub open spec fn values_view(values: Seq<String>) -> Seq<Seq<char>> {
    Seq::new(values.len(), |i: int| values[i]@)
}

/// A list of keys with their values as values.
pub open spec fn groups_view(groups: Seq<(String, Vec<String>)>) -> Seq<(Seq<char>, Seq<Seq<char>>)> {
    Seq::new(groups.len(), |i: int| (groups[i].0@, values_view(groups[i].1@)))
}

/// Puts the values of equal keys together: each key once, in the order in
/// which the keys first come, with all its values in their order.
pub fn combine_duplicates(collection: Vec<(String, String)>) -> (deduplicated: Vec<
    (String, Vec<String>),
>)
    ensures
        groups_view(deduplicated@) == combined(pairs_view(collection@)),
{
    let ghost pairs = pairs_view(collection@);
    let mut deduplicated: Vec<(String, Vec<String>)> = Vec::new();
    let mut rest = collection;
    let mut i: usize = 0;
    let total: usize = rest.len();
    proof {
        assert(groups_view(deduplicated@) =~= combined(pairs.take(0)));
    }
    while i < total
        invariant
            i <= total,
            total == rest@.len(),
            pairs.len() == total,
            forall|k: int| i <= k < total ==> pairs[k] == (rest@[k].0@, rest@[k].1@),
            groups_view(deduplicated@) == combined(pairs.take(i as int)),
        decreases total - i,
    {
        let ghost before = groups_view(deduplicated@);
        let mut pair = (String::new(), String::new());
        let ghost old_rest = rest@;
        std::mem::swap(&mut rest[i], &mut pair);
        let (k, v) = pair;
        proof {
            let next = pairs.take(i + 1);
            assert(next.drop_last() =~= pairs.take(i as int));
            assert(next.last() == (k@, v@));
        }
        let mut j: usize = 0;
        let mut found: Option<usize> = None;
        while j < deduplicated.len()
            invariant_except_break
                found is None,
            invariant
                j <= deduplicated@.len(),
                key_index(groups_view(deduplicated@), k@, 0) == key_index(
                    groups_view(deduplicated@),
                    k@,
                    j as int,
                ),
            ensures
                match found {
                    Some(at) => at < deduplicated@.len() && deduplicated@[at as int].0@ == k@
                        && key_index(groups_view(deduplicated@), k@, 0) == Some(at as int),
                    None => key_index(groups_view(deduplicated@), k@, 0) is None,
                },
            decreases deduplicated@.len() - j,
        {
            if crate::text::str_eq(deduplicated[j].0.as_str(), k.as_str()) {
                found = Some(j);
                break;
            }
            j += 1;
        }
        match found {
            Some(at) => {
                let ghost groups = deduplicated@;
                let mut entry = (String::new(), Vec::new());
                std::mem::swap(&mut deduplicated[at], &mut entry);
                let (key, mut values) = entry;
                let ghost values_before = values@;
                values.push(v);
                deduplicated[at] = (key, values);
                proof {
                    assert(values_before == groups[at as int].1@);
                    assert(values_view(values@) =~= values_view(values_before).push(v@));
                    assert(forall|n: int|
                        0 <= n < groups.len() && n != at ==> deduplicated@[n] == groups[n]);
                    assert(groups_view(deduplicated@) =~= before.update(
                        at as int,
                        (k@, before[at as int].1.push(v@)),
                    ));
                }
            },
            None => {
                let mut values: Vec<String> = Vec::new();
                values.push(v);
                deduplicated.push((k, values));
                proof {
                    assert(values_view(values@) =~= seq![v@]);
                    assert(groups_view(deduplicated@) =~= before.push((k@, seq![v@])));
                }
            },
        }
        i += 1;
    }
    proof {
        assert(pairs.take(i as int) =~= pairs);
    }
    deduplicated
}

/// The place of a header in the list of a request's headers, from which
/// `next` takes one header after the other.
pub struct RequestHeaders<'req> {
    /// The place of the header that `next` takes.
    pub next: usize,
    /// The request whose headers these are.
    pub req: &'req Request,
}

impl<'req> RequestHeaders<'req> {
    /// The header at the current place, its name as text and its value, and
    /// nothing after the last header. The place moves on by one.
    pub fn next(&mut self) -> (r: Option<(&'req str, &'req [u8])>)
        requires
            old(self).req.wf(),
        ensures
            final(self).req == old(self).req,
            match r {
                Some((name, value)) => {
                    &&& old(self).next < old(self).req@.headers.len()
                    &&& (name@, value@) == header_entry(old(self).req@, old(self).next as int)
                    &&& final(self).next == old(self).next + 1
                },
                None => old(self).next >= old(self).req@.headers.len() && final(self).next == old(
                    self,
                ).next,
            },
    {
        let req: &'req Request = self.req;
        if self.next < req.headers.len() {
            let name = req.slice(&req.headers[self.next].0);
            let value = req.slice(&req.headers[self.next].1);
            self.next = self.next + 1;
            Some((text_of(name), value))
        } else {
            None
        }
    }
}

impl Request {
    /// The length of the body, as `Content-Length` gave it.
    pub fn content_length(&self) -> (n: usize)
        ensures
            n == self@.content_length,
    {
        self.content_length
    }

    /// The content type without its metadata.
    pub fn content_type(&self) -> (r: &str)
        ensures
            r@ == media_type_of(self@.content_type),
    {
        let bytes = self.content_type.as_str().as_bytes();
        match find_byte(bytes, 0x3b) {
            Some(index) => text_of(slice_subrange(bytes, 0, index)),
            None => self.content_type.as_str(),
        }
    }

    /// The metadata of the content type, where it has any.
    pub fn content_type_metadata(&self) -> (r: Option<&str>)
        ensures
            match r {
                Some(metadata) => metadata@ == self@.content_type_metadata && metadata@.len() > 0,
                None => self@.content_type_metadata.len() == 0,
            },
    {
        if self.content_type_metadata.as_str().is_empty() {
            None
        } else {
            Some(self.content_type_metadata.as_str())
        }
    }

    /// The content type with its metadata.
    pub fn content_type_all(&self) -> (r: &str)
        ensures
            r@ == self@.content_type,
    {
        self.content_type.as_str()
    }

    /// The value of `Host`.
    pub fn host(&self) -> (r: &str)
        ensures
            r@ == self@.host,
    {
        self.host.as_str()
    }

    /// The handler that the router found when the request was decoded.
    pub fn handler(&self) -> (r: Option<Handler>)
        ensures
            r == self@.handler,
    {
        self.handler
    }

    /// The method of the request; GET where the bytes of its name are no
    /// name.
    pub fn method(&self) -> (r: Method)
        requires
            self.wf(),
        ensures
            r@ == request_method(self@),
    {
        let method = text_of(self.slice(&self.method));
        match Method::from_str(method) {
            Ok(method) => method,
            Err(_) => Method::Get,
        }
    }

    /// The password of the request. Decoding sets none.
    pub fn password(&self) -> (r: &str)
        ensures
            r@ == self@.password,
    {
        self.password.as_str()
    }

    /// The path: the request target without its query.
    pub fn path(&self) -> (r: &str)
        requires
            self.wf(),
        ensures
            r@ == text(slice_bytes(self@.data, self@.path)),
    {
        text_of(self.slice(&self.path))
    }

    /// The bytes of the body, and nothing for a body of no bytes.
    pub fn payload(&self) -> (r: Option<&[u8]>)
        requires
            self.wf(),
        ensures
            match r {
                Some(bytes) => self@.payload != (0usize, 0usize) && bytes@ == slice_bytes(
                    self@.data,
                    self@.payload,
                ),
                None => self@.payload == (0usize, 0usize),
            },
    {
        if self.payload.0 == 0 && self.payload.1 == 0 {
            None
        } else {
            Some(self.slice(&self.payload))
        }
    }

    /// The keys of the query with their values, and nothing where the
    /// request target has no query.
    pub fn query(&self) -> (r: Option<Vec<(String, Vec<String>)>>)
        requires
            self.wf(),
        ensures
            match r {
                Some(groups) => self@.query != (0usize, 0usize) && groups_view(groups@) == combined(
                    urlencoded_pairs(slice_bytes(self@.data, self@.query)),
                ),
                None => self@.query == (0usize, 0usize),
            },
    {
        if self.query.0 == 0 && self.query.1 == 0 {
            None
        } else {
            let data = self.slice(&self.query);
            Some(combine_duplicates(parse_urlencoded(data)))
        }
    }

    /// The keys of a form-encoded text with their values, and nothing for
    /// the empty text.
    pub fn urldecode(&self, data: &[u8]) -> (r: Option<Vec<(String, Vec<String>)>>)
        ensures
            match r {
                Some(groups) => data@.len() > 0 && groups_view(groups@) == combined(
                    urlencoded_pairs(data@),
                ),
                None => data@.len() == 0,
            },
    {
        if data.len() == 0 {
            None
        } else {
            Some(combine_duplicates(parse_urlencoded(data)))
        }
    }

    /// The scheme of the request.
    pub fn scheme(&self) -> (r: &str)
        ensures
            r@ == self@.scheme,
    {
        self.scheme.as_str()
    }

    /// Sets the scheme of the request. The URI stays as it is.
    pub fn set_scheme(&mut self, scheme: &str) -> (r: &str)
        ensures
            final(self)@ == (RequestView { scheme: scheme@, ..old(self)@ }),
            old(self).wf() ==> final(self).wf(),
            r@ == scheme@,
    {
        self.scheme = String::from_str(scheme);
        self.scheme.as_str()
    }

    /// Sets the address of the peer.
    pub fn set_remote_addr(&mut self, remote_addr: String)
        ensures
            final(self)@ == (RequestView { remote_addr: Some(remote_addr@), ..old(self)@ }),
            old(self).wf() ==> final(self).wf(),
    {
        self.remote_addr = Some(remote_addr);
    }

    /// The address of the peer, where one was set.
    pub fn remote_addr(&self) -> (r: Option<&str>)
        ensures
            match r {
                Some(addr) => self@.remote_addr == Some(addr@),
                None => self@.remote_addr is None,
            },
    {
        match &self.remote_addr {
            Some(addr) => Some(addr.as_str()),
            None => None,
        }
    }

    /// The request line.
    pub fn request_line(&self) -> (r: &str)
        ensures
            r@ == self@.request_line,
    {
        self.request_line.as_str()
    }

    /// The absolute URI of the request.
    pub fn uri(&self) -> (r: &str)
        ensures
            r@ == self@.uri,
    {
        self.uri.as_str()
    }

    /// The value of `User-Agent`.
    pub fn user_agent(&self) -> (r: Option<&str>)
        requires
            self.wf(),
        ensures
            match r {
                Some(value) => header_value(self@.data, self@.headers, "user-agent"@) is Some
                    && value@ == text(header_value(self@.data, self@.headers, "user-agent"@)->Some_0),
                None => header_value(self@.data, self@.headers, "user-agent"@) is None,
            },
    {
        self.header("user-agent")
    }

    /// The user name of the request. Decoding sets none.
    pub fn user_name(&self) -> (r: &str)
        ensures
            r@ == self@.username,
    {
        self.username.as_str()
    }

    /// The minor version of the request: `1` for `HTTP/1.1`.
    pub fn version(&self) -> (r: u8)
        ensures
            r == self@.version,
    {
        self.version
    }

    /// The value, as text, of the first header whose name is `key` but for
    /// the case of ASCII letters. A value that is no UTF-8 gives no text.
    pub fn header(&self, key: &str) -> (r: Option<&str>)
        requires
            self.wf(),
        ensures
            match r {
                Some(value) => header_value(self@.data, self@.headers, key@) is Some && value@
                    == text(header_value(self@.data, self@.headers, key@)->Some_0),
                None => header_value(self@.data, self@.headers, key@) is None,
            },
    {
        match find_header(self.data.as_slice(), &self.headers, key) {
            Some(value) => Some(text_of(value)),
            None => None,
        }
    }

    /// The headers of the request from the first on.
    pub fn headers(&self) -> (r: RequestHeaders<'_>)
        ensures
            r.next == 0,
            r.req == self,
    {
        RequestHeaders { next: 0, req: self }
    }

    /// The bytes of a range of the request.
    fn slice(&self, slice: &Slice) -> (bytes: &[u8])
        requires
            self.wf(),
            slice_within(*slice, self@.data.len() as int),
        ensures
            bytes@ == slice_bytes(self@.data, *slice),
    {
        slice_subrange(self.data.as_slice(), slice.0, slice.1)
    }

    /// Copies to the start of `buf` the bytes of the request that were not
    /// read yet, as far as `buf` has room, and returns their number. No byte
    /// beyond those of the request is ever given.
    pub fn read(&mut self, buf: &mut [u8]) -> (n: usize)
        requires
            old(self).wf(),
        ensures
            final(self).wf(),
            n == read_len(old(self)@.data, old(self)@.read, old(buf)@.len()),
            final(self)@ == (RequestView { read: (old(self)@.read + n) as nat, ..old(self)@ }),
            final(buf)@ == old(self)@.data.subrange(old(self)@.read as int, old(self)@.read + n)
                + old(buf)@.skip(n as int),
    {
        self.data.read(buf)
    }

    /// The boundary of a multipart body: what follows `boundary=` in the
    /// metadata of the content type. Without metadata, or without
    /// `boundary=` in it, there is none.
    pub fn multipart_boundary(&self) -> (r: Option<&str>)
        ensures
            match r {
                Some(boundary) => boundary_of(self@.content_type_metadata) == Some(boundary@),
                None => boundary_of(self@.content_type_metadata) is None,
            },
    {
        let meta = self.content_type_metadata.as_str().as_bytes();
        let key = "boundary=".as_bytes();
        let len: usize = meta.len();
        match find_bytes(meta, key) {
            Some(index) => Some(text_of(slice_subrange(meta, index + key.len(), len))),
            None => None,
        }
    }

    /// The request as the source of its body.
    pub fn body(self) -> (r: Request)
        ensures
            r == self,
    {
        self
    }
}

/// A request that is decoded holds exactly the bytes of its head and as
/// many more as `Content-Length` says; the bytes after them are what stays
/// in the buffer. Every range of the request lies in the bytes that it
/// holds.
pub proof fn lemma_decode_takes_head_and_body(
    buf: Seq<u8>,
    head: HeadView,
    remote_addr: Option<Seq<char>>,
    routes: Option<Seq<Route>>,
    base_path: Seq<char>,
)
    requires
        buf.len() <= usize::MAX,
        head_within(head, buf.len() as int),
        total_len(buf, head) <= buf.len(),
    ensures
        ({
            let request = decoded_request(buf, head, remote_addr, routes, base_path);
            &&& request.data.len() == head.len + content_length_of(buf, head)
            &&& request.data + buf.skip(total_len(buf, head)) == buf
            &&& request_within(request)
            &&& request.content_length > 0 ==> slice_bytes(request.data, request.payload)
                == buf.subrange(head.len as int, head.len + request.content_length)
        }),
{
    let request = decoded_request(buf, head, remote_addr, routes, base_path);
    let total = total_len(buf, head);
    assert(request.data + buf.skip(total) =~= buf);
    lemma_first_at(target_bytes(buf, head), seq![0x3fu8], 0);
    if request.content_length > 0 {
        assert(slice_bytes(request.data, request.payload) =~= buf.subrange(
            head.len as int,
            head.len + request.content_length,
        ));
    }
}

/// The request target is split at its first `?`. Without a `?` the path is
/// the whole target and the query is absent. With one, the path is what
/// stands before it and holds no `?`, and the query is what stands after
/// it: neither holds the `?` that parts them.
pub proof fn lemma_path_and_query(buf: Seq<u8>, head: HeadView)
    requires
        head_within(head, buf.len() as int),
    ensures
        ({
            let target = target_bytes(buf, head);
            let path = slice_bytes(buf, path_of(buf, head));
            let query = slice_bytes(buf, query_of(buf, head));
            &&& (forall|i: int| 0 <= i < target.len() ==> target[i] != 0x3f) ==> query_of(buf, head)
                == (0usize, 0usize) && path == target
            &&& (exists|i: int| 0 <= i < target.len() && target[i] == 0x3f) ==> {
                &&& forall|i: int| 0 <= i < path.len() ==> path[i] != 0x3f
                &&& target == path + seq![0x3fu8] + query
                &&& query_of(buf, head) != (0usize, 0usize)
            }
        }),
{
    let target = target_bytes(buf, head);
    let path = slice_bytes(buf, path_of(buf, head));
    let query = slice_bytes(buf, query_of(buf, head));
    let mark = seq![0x3fu8];
    lemma_first_at(target, mark, 0);
    assert forall|k: int| 0 <= k < target.len() implies (target.subrange(k, k + 1) == mark
        <==> target[k] == 0x3f) by {
        if target[k] == 0x3f {
            assert(target.subrange(k, k + 1) =~= mark);
        } else {
            assert(target.subrange(k, k + 1)[0] == target[k]);
        }
    }
    match first_byte(target, 0x3f) {
        Some(at) => {
            assert(target.subrange(at, at + 1) == mark);
            assert(target[at] == 0x3f);
            assert forall|i: int| 0 <= i < path.len() implies path[i] != 0x3f by {
                assert(path[i] == target[i]);
                assert(target.subrange(i, i + 1) != mark);
            }
            assert(target =~= path + mark + query);
        },
        None => {
            assert forall|i: int| 0 <= i < target.len() implies target[i] != 0x3f by {
                assert(target.subrange(i, i + 1) != mark);
            }
        },
    }
}

} // verus!
