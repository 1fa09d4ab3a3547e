use tokio_http2::http::response::{encode, encode_at, Response};
use tokio_http2::http::{format_access_log_line, HttpCodec};
use tokio_http2::router::handlers::{
    default_404_handler, internal_server_error_handler, method_not_supported_handler,
    not_implemented_handler, Handler,
};
use tokio_http2::http::request::{decode, Request};
use tokio_http2::status::StatusCode;

fn wire(res: Response) -> String {
    let mut buf = Vec::new();
    encode_at(res, "Sun, 06 Nov 1994 08:49:37 GMT", &mut buf);
    String::from_utf8(buf).unwrap()
}

fn request() -> Request {
    let mut buf = b"GET / HTTP/1.1\r\n\r\n".to_vec();
    decode(&mut buf, None, None, String::new()).unwrap().unwrap()
}

#[test]
fn new_response_on_the_wire() {
    assert_eq!(
        wire(Response::new()),
        "HTTP/1.1 200 OK\r\nDate: Sun, 06 Nov 1994 08:49:37 GMT\r\nContent-Length: 0\r\n\r\n"
    );
}

#[test]
fn response_with_headers_status_and_body() {
    let res = Response::new()
        .with_header("Content-Type", "text/plain")
        .with_header("X-A", "1")
        .with_status(StatusCode::NotFound)
        .with_body(b"gone".to_vec());
    assert_eq!(res.code(), 404);
    assert_eq!(res.content_length(), 4);
    assert_eq!(
        wire(res),
        "HTTP/1.1 404 Not Found\r\nDate: Sun, 06 Nov 1994 08:49:37 GMT\r\n\
         Content-Length: 0\r\nContent-Type: text/plain\r\nX-A: 1\r\n\r\ngone"
    );
}

#[test]
fn response_with_custom_status() {
    let res = Response::new().status_code(7, "Odd").with_body(vec![0xff, 0x00]);
    let mut buf = vec![1u8];
    encode_at(res, "now", &mut buf);
    let mut expected = vec![1u8];
    expected.extend_from_slice(b"HTTP/1.1 7 Odd\r\nDate: now\r\nContent-Length: 0\r\n\r\n");
    expected.extend_from_slice(&[0xff, 0x00]);
    assert_eq!(buf, expected);
    let res = Response::new().status_code(65535, "");
    assert_eq!(res.code(), 65535);
    assert!(wire(res).starts_with("HTTP/1.1 65535 \r\nDate: "));
}

#[test]
fn encode_appends_with_a_date() {
    let mut buf = b"kept".to_vec();
    encode(Response::new().with_body(b"body".to_vec()), &mut buf);
    let text = String::from_utf8(buf).unwrap();
    assert!(text.starts_with("keptHTTP/1.1 200 OK\r\nDate: "));
    assert!(text.ends_with("\r\nContent-Length: 0\r\n\r\nbody"));
    let date = &text["keptHTTP/1.1 200 OK\r\nDate: ".len()..text.len() - "\r\nContent-Length: 0\r\n\r\nbody".len()];
    assert!(!date.is_empty());
    assert!(!date.contains('\r'));
}

#[test]
fn status_codes() {
    let all = [
        (StatusCode::Okay, 200u16, "OK"),
        (StatusCode::BadRequest, 400, "Bad Request"),
        (StatusCode::NotFound, 404, "Not Found"),
        (StatusCode::MethodNotAllowed, 405, "Method Not Allowed"),
        (StatusCode::InternalServerError, 500, "Internal Server Error"),
        (StatusCode::NotImplemented, 501, "Not Implemented"),
    ];
    for (code, number, reason) in all {
        assert_eq!(code.to_u16(), number);
        assert_eq!(code.canonical_reason(), Some(reason));
    }
}

#[test]
fn default_handlers_answer_with_their_status() {
    let tail = "\r\nDate: Sun, 06 Nov 1994 08:49:37 GMT\r\nContent-Length: 0\r\nContent-Length: 0\r\n\r\n";
    assert_eq!(
        wire(default_404_handler(request(), String::new())),
        format!("HTTP/1.1 404 Not Found{}", tail)
    );
    assert_eq!(
        wire(method_not_supported_handler(request(), String::new())),
        format!("HTTP/1.1 405 Method Not Allowed{}", tail)
    );
    assert_eq!(
        wire(internal_server_error_handler(request(), String::new())),
        format!("HTTP/1.1 500 Internal Server Error{}", tail)
    );
    assert_eq!(
        wire(not_implemented_handler(request(), String::new())),
        format!("HTTP/1.1 501 Not Implemented{}", tail)
    );
    assert_eq!(
        wire(Handler::NotFound.respond(request(), String::new()).unwrap()),
        format!("HTTP/1.1 404 Not Found{}", tail)
    );
    assert_eq!(
        wire(Handler::MethodNotSupported.respond(request(), String::new()).unwrap()),
        format!("HTTP/1.1 405 Method Not Allowed{}", tail)
    );
    assert_eq!(
        wire(Handler::InternalServerError.respond(request(), String::new()).unwrap()),
        format!("HTTP/1.1 500 Internal Server Error{}", tail)
    );
    assert_eq!(
        wire(Handler::NotImplemented.respond(request(), String::new()).unwrap()),
        format!("HTTP/1.1 501 Not Implemented{}", tail)
    );
    assert!(Handler::Registered(0).respond(request(), String::new()).is_none());
}

#[test]
fn access_log_line_format() {
    assert_eq!(
        format_access_log_line("1.2.3.4:5", "GET / HTTP/1.1", 200, 12, "-", "curl/8"),
        "1.2.3.4:5 - \"GET / HTTP/1.1\" 200 12 \"-\" \"curl/8\""
    );
    assert_eq!(format_access_log_line("", "", 0, 0, "", ""), " - \"\" 0 0 \"\" \"\"");
}

#[test]
fn codec_decodes_and_logs() {
    let mut codec = HttpCodec::new(Some("9.9.9.9:1".to_string()), None, true);
    let mut input = b"GET /x HTTP/1.1\r\nUser-Agent: ua\r\n\r\nrest".to_vec();
    let req = codec.decode(&mut input).unwrap().unwrap();
    assert_eq!(req.path(), "/x");
    assert_eq!(req.remote_addr(), Some("9.9.9.9:1"));
    assert_eq!(input, b"rest");
    let mut out = Vec::new();
    let line = codec.encode(Response::new().with_body(b"abc".to_vec()), &mut out);
    assert_eq!(line, Some("9.9.9.9:1 - \"GET /x HTTP/1.1\" 200 3 \"-\" \"ua\"".to_string()));
    assert!(String::from_utf8(out).unwrap().starts_with("HTTP/1.1 200 OK\r\nDate: "));
}

#[test]
fn codec_log_line_has_placeholders() {
    let mut codec = HttpCodec::new(None, None, true);
    let mut out = Vec::new();
    let line = codec.encode(Response::new().with_status(StatusCode::NotImplemented), &mut out);
    assert_eq!(line, Some("- - \"-\" 501 0 \"-\" \"-\"".to_string()));
    let mut input = b"GET /y HTTP/1.1\r\n\r\n".to_vec();
    codec.decode(&mut input).unwrap().unwrap();
    let line = codec.encode(Response::new(), &mut out);
    assert_eq!(line, Some("- - \"GET /y HTTP/1.1\" 200 0 \"-\" \"-\"".to_string()));
}

#[test]
fn codec_without_log() {
    let mut codec = HttpCodec::new(None, None, false);
    let mut input = b"GET /y HTTP/1.1\r\n".to_vec();
    assert!(codec.decode(&mut input).unwrap().is_none());
    assert_eq!(input, b"GET /y HTTP/1.1\r\n");
    let mut input = b"\0".to_vec();
    assert!(codec.decode(&mut input).is_err());
    let mut out = Vec::new();
    assert_eq!(codec.encode(Response::new(), &mut out), None);
    assert!(!out.is_empty());
}
