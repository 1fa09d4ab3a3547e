use tokio_http2::http::request::{assemble, combine_duplicates, decode, Head};
use tokio_http2::method::Method;
use tokio_http2::router::builder::RouterBuilder;
use tokio_http2::router::handlers::Handler;
use tokio_http2::router::route::route::Route;

fn bytes(s: &str) -> Vec<u8> {
    s.as_bytes().to_vec()
}

#[test]
fn get_with_query_decodes() {
    let mut buf = bytes("GET /foo?x=1 HTTP/1.1\r\nHost: a\r\n\r\n");
    let req = decode(&mut buf, None, None, String::new()).unwrap().unwrap();
    assert_eq!(req.path(), "/foo");
    assert_eq!(req.query(), Some(vec![("x".to_string(), vec!["1".to_string()])]));
    assert_eq!(req.method(), Method::Get);
    assert_eq!(req.content_length(), 0);
    assert_eq!(req.payload(), None);
    assert_eq!(req.host(), "a");
    assert_eq!(req.version(), 1);
    assert_eq!(req.uri(), "http://a/foo?x=1");
    assert_eq!(req.request_line(), "GET /foo?x=1 HTTP/1.1");
    assert_eq!(req.scheme(), "http");
    assert_eq!(req.user_name(), "");
    assert_eq!(req.password(), "");
    assert_eq!(req.handler(), None);
    assert_eq!(req.remote_addr(), None);
    assert!(buf.is_empty());
}

#[test]
fn post_with_body_decodes() {
    let mut buf =
        bytes("POST /p HTTP/1.1\r\nContent-Type: text/plain\r\nContent-Length: 5\r\n\r\nhello");
    let req = decode(&mut buf, None, None, String::new()).unwrap().unwrap();
    assert_eq!(req.content_length(), 5);
    assert_eq!(req.payload(), Some(&b"hello"[..]));
    assert_eq!(req.content_type(), "text/plain");
    assert_eq!(req.content_type_all(), "text/plain");
    assert_eq!(req.content_type_metadata(), None);
    assert_eq!(req.method(), Method::Post);
    assert_eq!(req.path(), "/p");
    assert_eq!(req.query(), None);
    assert!(buf.is_empty());
}

#[test]
fn decode_consumes_head_and_body_only() {
    let first = "PUT /a HTTP/1.1\r\nContent-Length: 3\r\n\r\nabc";
    let second = "GET /b HTTP/1.1\r\n\r\n";
    let mut buf = bytes(&format!("{}{}", first, second));
    let req = decode(&mut buf, None, None, String::new()).unwrap().unwrap();
    assert_eq!(req.payload(), Some(&b"abc"[..]));
    assert_eq!(buf, second.as_bytes());
    let req = decode(&mut buf, None, None, String::new()).unwrap().unwrap();
    assert_eq!(req.path(), "/b");
    assert_eq!(req.payload(), None);
    assert!(buf.is_empty());
    assert!(decode(&mut buf, None, None, String::new()).unwrap().is_none());
}

#[test]
fn partial_head_consumes_nothing() {
    let text = "GET /foo HTTP/1.1\r\nHost: a\r\n";
    let mut buf = bytes(text);
    assert!(decode(&mut buf, None, None, String::new()).unwrap().is_none());
    assert_eq!(buf, text.as_bytes());
    let mut buf = Vec::new();
    assert!(decode(&mut buf, None, None, String::new()).unwrap().is_none());
}

#[test]
fn incomplete_body_consumes_nothing() {
    let text = "POST /p HTTP/1.1\r\nContent-Length: 5\r\n\r\nhell";
    let mut buf = bytes(text);
    assert!(decode(&mut buf, None, None, String::new()).unwrap().is_none());
    assert_eq!(buf, text.as_bytes());
    buf.push(b'o');
    let req = decode(&mut buf, None, None, String::new()).unwrap().unwrap();
    assert_eq!(req.payload(), Some(&b"hello"[..]));
}

#[test]
fn content_length_that_cannot_fit_is_not_an_error() {
    let text = "POST /p HTTP/1.1\r\nContent-Length: 18446744073709551615\r\n\r\nx";
    let mut buf = bytes(text);
    assert!(decode(&mut buf, None, None, String::new()).unwrap().is_none());
    assert_eq!(buf, text.as_bytes());
}

#[test]
fn malformed_request_is_an_error() {
    let text = "GET /foo HTTP/9.9\r\n\r\n";
    let mut buf = bytes(text);
    let err = decode(&mut buf, None, None, String::new()).err().unwrap();
    assert_eq!(err.message, "failed to parse http request: Version");
    assert_eq!(buf, text.as_bytes());
    let mut buf = bytes("G\0T / HTTP/1.1\r\n\r\n");
    let err = decode(&mut buf, None, None, String::new()).err().unwrap();
    assert_eq!(err.message, "failed to parse http request: Token");
}

#[test]
fn too_many_headers_is_an_error() {
    let mut text = String::from("GET / HTTP/1.1\r\n");
    for i in 0..17 {
        text.push_str(&format!("X-{}: v\r\n", i));
    }
    text.push_str("\r\n");
    let mut buf = bytes(&text);
    let err = decode(&mut buf, None, None, String::new()).err().unwrap();
    assert_eq!(err.message, "failed to parse http request: TooManyHeaders");
}

#[test]
fn content_length_that_is_no_number_counts_as_zero() {
    for value in ["abc", "-1", "1x", "", "1.5", "99999999999999999999999999"] {
        let text = format!("POST /p HTTP/1.1\r\nContent-Length: {}\r\n\r\nrest", value);
        let mut buf = bytes(&text);
        let req = decode(&mut buf, None, None, String::new()).unwrap().unwrap();
        assert_eq!(req.content_length(), 0);
        assert_eq!(req.payload(), None);
        assert_eq!(buf, b"rest");
    }
    let mut buf = bytes("POST /p HTTP/1.1\r\nContent-Length: +004\r\n\r\nrest");
    let req = decode(&mut buf, None, None, String::new()).unwrap().unwrap();
    assert_eq!(req.content_length(), 4);
    assert_eq!(req.payload(), Some(&b"rest"[..]));
}

#[test]
fn content_type_by_method() {
    let mut buf = bytes("GET / HTTP/1.1\r\nAccept: text/html\r\nContent-Type: x/y\r\n\r\n");
    let req = decode(&mut buf, None, None, String::new()).unwrap().unwrap();
    assert_eq!(req.content_type(), "text/html");
    let mut buf = bytes("GET / HTTP/1.1\r\nContent-Type: x/y\r\n\r\n");
    let req = decode(&mut buf, None, None, String::new()).unwrap().unwrap();
    assert_eq!(req.content_type(), "text/plain");
    let mut buf = bytes("PUT / HTTP/1.1\r\nAccept: text/html\r\n\r\n");
    let req = decode(&mut buf, None, None, String::new()).unwrap().unwrap();
    assert_eq!(req.content_type(), "application/octet-stream");
    let mut buf = bytes("POST / HTTP/1.1\r\naccept: text/html\r\ncontent-type: a/b\r\n\r\n");
    let req = decode(&mut buf, None, None, String::new()).unwrap().unwrap();
    assert_eq!(req.content_type(), "a/b");
    // The method is compared letter for letter.
    let mut buf = bytes("post / HTTP/1.1\r\nContent-Type: a/b\r\n\r\n");
    let req = decode(&mut buf, None, None, String::new()).unwrap().unwrap();
    assert_eq!(req.content_type(), "text/plain");
}

#[test]
fn content_type_metadata_and_boundary() {
    let mut buf = bytes(
        "POST /up HTTP/1.1\r\nContent-Type: multipart/form-data;  boundary=xYz  \r\n\r\n",
    );
    let req = decode(&mut buf, None, None, String::new()).unwrap().unwrap();
    assert_eq!(req.content_type(), "multipart/form-data");
    assert_eq!(req.content_type_all(), "multipart/form-data;  boundary=xYz");
    assert_eq!(req.content_type_metadata(), Some("boundary=xYz"));
    assert_eq!(req.multipart_boundary(), Some("xYz"));

    let mut buf = bytes("POST /up HTTP/1.1\r\nContent-Type: text/html; charset=utf-8\r\n\r\n");
    let req = decode(&mut buf, None, None, String::new()).unwrap().unwrap();
    assert_eq!(req.content_type(), "text/html");
    assert_eq!(req.content_type_metadata(), Some("charset=utf-8"));
    assert_eq!(req.multipart_boundary(), None);

    let mut buf = bytes("POST /up HTTP/1.1\r\nContent-Type: text/html\r\n\r\n");
    let req = decode(&mut buf, None, None, String::new()).unwrap().unwrap();
    assert_eq!(req.content_type_metadata(), None);
    assert_eq!(req.multipart_boundary(), None);
}

#[test]
fn header_lookup_ignores_case_and_takes_the_first() {
    let mut buf = bytes(
        "GET / HTTP/1.1\r\nX-Tag: one\r\nx-tag: two\r\nUser-Agent: curl\r\nEmpty:\r\n\r\n",
    );
    let req = decode(&mut buf, None, None, String::new()).unwrap().unwrap();
    assert_eq!(req.header("x-tag"), Some("one"));
    assert_eq!(req.header("X-TAG"), Some("one"));
    assert_eq!(req.header("X-Tag"), Some("one"));
    assert_eq!(req.header("x-ta"), None);
    assert_eq!(req.header("x-tagg"), None);
    assert_eq!(req.header("empty"), Some(""));
    assert_eq!(req.user_agent(), Some("curl"));
    assert_eq!(req.host(), "");
    assert_eq!(req.uri(), "http:///");
}

#[test]
fn header_value_that_is_no_utf8() {
    let mut buf = b"GET / HTTP/1.1\r\nHost: \xff\xfe\r\nX: \xff\r\n\r\n".to_vec();
    let req = decode(&mut buf, None, None, String::new()).unwrap().unwrap();
    assert_eq!(req.host(), "");
    assert_eq!(req.header("x"), Some(""));
}

#[test]
fn headers_in_wire_order() {
    let mut buf = bytes("GET / HTTP/1.1\r\nA: 1\r\nB: 2\r\nA: 3\r\n\r\n");
    let req = decode(&mut buf, None, None, String::new()).unwrap().unwrap();
    let mut headers = req.headers();
    assert_eq!(headers.next(), Some(("A", &b"1"[..])));
    assert_eq!(headers.next(), Some(("B", &b"2"[..])));
    assert_eq!(headers.next(), Some(("A", &b"3"[..])));
    assert_eq!(headers.next(), None);
    assert_eq!(headers.next(), None);
}

#[test]
fn path_and_query_are_split_at_the_first_question_mark() {
    let mut buf = bytes("GET /a/b?k=v?w&k=2 HTTP/1.1\r\n\r\n");
    let req = decode(&mut buf, None, None, String::new()).unwrap().unwrap();
    assert_eq!(req.path(), "/a/b");
    assert_eq!(
        req.query(),
        Some(vec![
            ("k".to_string(), vec!["v?w".to_string(), "2".to_string()]),
        ])
    );
    let mut buf = bytes("GET /a/b? HTTP/1.1\r\n\r\n");
    let req = decode(&mut buf, None, None, String::new()).unwrap().unwrap();
    assert_eq!(req.path(), "/a/b");
    assert_eq!(req.query(), Some(vec![]));
    let mut buf = bytes("GET /a/b HTTP/1.1\r\n\r\n");
    let req = decode(&mut buf, None, None, String::new()).unwrap().unwrap();
    assert_eq!(req.path(), "/a/b");
    assert_eq!(req.query(), None);
}

#[test]
fn query_is_percent_decoded() {
    let mut buf = bytes("GET /s?q=a+b%21&%23k=%25&q=c&e HTTP/1.1\r\n\r\n");
    let req = decode(&mut buf, None, None, String::new()).unwrap().unwrap();
    assert_eq!(
        req.query(),
        Some(vec![
            ("q".to_string(), vec!["a b!".to_string(), "c".to_string()]),
            ("#k".to_string(), vec!["%".to_string()]),
            ("e".to_string(), vec!["".to_string()]),
        ])
    );
    assert_eq!(req.urldecode(b""), None);
    assert_eq!(
        req.urldecode(b"a=1&b=2&a=3"),
        Some(vec![
            ("a".to_string(), vec!["1".to_string(), "3".to_string()]),
            ("b".to_string(), vec!["2".to_string()]),
        ])
    );
}

#[test]
fn combine_duplicates_keeps_first_come_order() {
    let pairs = vec![
        ("b".to_string(), "1".to_string()),
        ("a".to_string(), "2".to_string()),
        ("b".to_string(), "3".to_string()),
        ("c".to_string(), "4".to_string()),
        ("a".to_string(), "5".to_string()),
    ];
    assert_eq!(
        combine_duplicates(pairs),
        vec![
            ("b".to_string(), vec!["1".to_string(), "3".to_string()]),
            ("a".to_string(), vec!["2".to_string(), "5".to_string()]),
            ("c".to_string(), vec!["4".to_string()]),
        ]
    );
    assert_eq!(combine_duplicates(vec![]), vec![]);
}

#[test]
fn extension_method_and_version() {
    let mut buf = bytes("PURGE /cache HTTP/1.0\r\n\r\n");
    let req = decode(&mut buf, None, None, String::new()).unwrap().unwrap();
    assert_eq!(req.method(), Method::Extension("PURGE".to_string()));
    assert_eq!(req.version(), 0);
    assert_eq!(req.request_line(), "PURGE /cache HTTP/1.0");
}

#[test]
fn remote_addr_scheme_and_base_path() {
    let mut buf = bytes("GET / HTTP/1.1\r\n\r\n");
    let mut req =
        decode(&mut buf, Some("10.0.0.1:80".to_string()), None, "/srv".to_string()).unwrap().unwrap();
    assert_eq!(req.remote_addr(), Some("10.0.0.1:80"));
    assert_eq!(req.base_path, "/srv");
    req.set_remote_addr("10.0.0.2:81".to_string());
    assert_eq!(req.remote_addr(), Some("10.0.0.2:81"));
    assert_eq!(req.set_scheme("https"), "https");
    assert_eq!(req.scheme(), "https");
    assert_eq!(req.uri(), "http:///");
    let same = req.clone().body();
    assert_eq!(same.scheme(), "https");
    assert_eq!(same.path(), "/");
}

#[test]
fn read_yields_the_bytes_of_the_request_only() {
    let text = "POST /p HTTP/1.1\r\nContent-Length: 2\r\n\r\nhi";
    let mut buf = bytes(&format!("{}NEXT", text));
    let mut req = decode(&mut buf, None, None, String::new()).unwrap().unwrap();
    let mut out = Vec::new();
    let mut chunk = [0u8; 7];
    loop {
        let n = req.read(&mut chunk);
        if n == 0 {
            break;
        }
        out.extend_from_slice(&chunk[..n]);
    }
    assert_eq!(out, text.as_bytes());
    assert_eq!(req.read(&mut chunk), 0);
    assert_eq!(req.read(&mut []), 0);
    assert_eq!(buf, b"NEXT");
}

#[test]
fn handler_is_resolved_when_a_router_is_given() {
    let router = RouterBuilder::new()
        .add(Route::get(r"/person/\d+").using(Handler::Registered(1)))
        .add(Route::post(r"/person/\d+").using(Handler::Registered(2)))
        .build();
    let mut buf = bytes("POST /person/12?x=1 HTTP/1.1\r\n\r\n");
    let req = decode(&mut buf, None, Some(&router), String::new()).unwrap().unwrap();
    assert_eq!(req.handler(), Some(Handler::Registered(2)));
    let mut buf = bytes("GET /person/x HTTP/1.1\r\n\r\n");
    let req = decode(&mut buf, None, Some(&router), String::new()).unwrap().unwrap();
    assert_eq!(req.handler(), None);
    let mut buf = bytes("DELETE /person/1 HTTP/1.1\r\n\r\n");
    let req = decode(&mut buf, None, Some(&router), String::new()).unwrap().unwrap();
    assert_eq!(req.handler(), None);
}

#[test]
fn assemble_from_a_head() {
    let text = "GET /x?y HTTP/1.1\r\nHost: h\r\n\r\ntail";
    let mut buf = bytes(text);
    let head = Head {
        len: 30,
        method: (0, 3),
        path: (4, 4),
        version: 1,
        headers: vec![((19, 4), (25, 1))],
    };
    let req = assemble(&mut buf, head, None, None, String::new()).unwrap();
    assert_eq!(req.path(), "/x");
    assert_eq!(req.host(), "h");
    assert_eq!(req.uri(), "http://h/x?y");
    assert_eq!(req.request_line(), "GET /x?y HTTP/1.1");
    assert_eq!(buf, b"tail");
}
