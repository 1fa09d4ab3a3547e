use std::sync::Arc;
use tokio_http2::error::Error;
use tokio_http2::http::chunk::Chunk;
use tokio_http2::method::Method;
use tokio_http2::text::{bytes_eq, find_byte, find_bytes, parse_decimal, push_decimal, str_eq, text_of};
use tokio_http2::version::HttpVersion;

#[test]
fn method_from_str() {
    assert_eq!(Method::from_str(""), Err(Error::Method));
    assert_eq!(Method::from_str("OPTIONS"), Ok(Method::Options));
    assert_eq!(Method::from_str("GET"), Ok(Method::Get));
    assert_eq!(Method::from_str("POST"), Ok(Method::Post));
    assert_eq!(Method::from_str("PUT"), Ok(Method::Put));
    assert_eq!(Method::from_str("DELETE"), Ok(Method::Delete));
    assert_eq!(Method::from_str("HEAD"), Ok(Method::Head));
    assert_eq!(Method::from_str("TRACE"), Ok(Method::Trace));
    assert_eq!(Method::from_str("CONNECT"), Ok(Method::Connect));
    assert_eq!(Method::from_str("PATCH"), Ok(Method::Patch));
    assert_eq!(Method::from_str("get"), Ok(Method::Extension("get".to_string())));
    assert_eq!(Method::from_str("FOO"), Ok(Method::Extension("FOO".to_string())));
    assert_eq!("PUT".parse::<Method>(), Ok(Method::Put));
}

#[test]
fn method_names_and_equality() {
    let all = [
        (Method::Options, "OPTIONS"),
        (Method::Get, "GET"),
        (Method::Post, "POST"),
        (Method::Put, "PUT"),
        (Method::Delete, "DELETE"),
        (Method::Head, "HEAD"),
        (Method::Trace, "TRACE"),
        (Method::Connect, "CONNECT"),
        (Method::Patch, "PATCH"),
        (Method::Extension("X".to_string()), "X"),
    ];
    for (i, (method, name)) in all.iter().enumerate() {
        assert_eq!(method.as_ref(), *name);
        assert_eq!(method.to_string(), *name);
        for (j, (other, _)) in all.iter().enumerate() {
            assert_eq!(method == other, i == j);
        }
    }
    assert_ne!(Method::Extension("GET".to_string()), Method::Get);
    assert_ne!(Method::Extension("a".to_string()), Method::Extension("b".to_string()));
    assert_eq!(Method::default(), Method::Get);
}

#[test]
fn method_safe_and_idempotent() {
    let safe = [Method::Get, Method::Head, Method::Options, Method::Trace];
    let idempotent_only = [Method::Put, Method::Delete];
    let neither = [Method::Post, Method::Connect, Method::Patch, Method::Extension("GET".to_string())];
    for m in safe.iter() {
        assert!(m.safe());
        assert!(m.idempotent());
    }
    for m in idempotent_only.iter() {
        assert!(!m.safe());
        assert!(m.idempotent());
    }
    for m in neither.iter() {
        assert!(!m.safe());
        assert!(!m.idempotent());
    }
}

#[test]
fn http_versions() {
    assert_eq!(HttpVersion::Http09.as_str(), "HTTP/0.9");
    assert_eq!(HttpVersion::Http10.as_str(), "HTTP/1.0");
    assert_eq!(HttpVersion::Http11.as_str(), "HTTP/1.1");
    assert_eq!(HttpVersion::H2.as_str(), "h2");
    assert_eq!(HttpVersion::H2c.as_str(), "h2c");
    assert_eq!(HttpVersion::default(), HttpVersion::Http11);
    assert!(HttpVersion::Http09 < HttpVersion::Http10);
    assert!(HttpVersion::Http11 < HttpVersion::H2);
    assert!(HttpVersion::H2 < HttpVersion::H2c);
}

#[test]
fn chunks_hold_their_bytes() {
    let owned = Chunk::from(vec![1u8, 2, 3]);
    assert_eq!(owned.as_ref(), &[1, 2, 3]);
    assert_eq!(&*owned, &[1, 2, 3]);
    let through_trait: &[u8] = AsRef::<[u8]>::as_ref(&owned);
    assert_eq!(through_trait, &[1, 2, 3]);
    let shared = Chunk::from(Arc::new(vec![4u8, 5]));
    assert_eq!(shared.as_ref(), &[4, 5]);
    let fixed = Chunk::from(&b"static"[..]);
    assert_eq!(fixed.as_ref(), b"static");
    assert_eq!(Chunk::from(Vec::new()).as_ref(), b"");
}

#[test]
fn decimal_numbers() {
    assert_eq!(parse_decimal(b"0"), Some(0));
    assert_eq!(parse_decimal(b"007"), Some(7));
    assert_eq!(parse_decimal(b"+12"), Some(12));
    assert_eq!(parse_decimal(b"1234567890"), Some(1234567890));
    assert_eq!(parse_decimal(usize::MAX.to_string().as_bytes()), Some(usize::MAX));
    assert_eq!(parse_decimal(b""), None);
    assert_eq!(parse_decimal(b"+"), None);
    assert_eq!(parse_decimal(b"-1"), None);
    assert_eq!(parse_decimal(b"++1"), None);
    assert_eq!(parse_decimal(b"1+"), None);
    assert_eq!(parse_decimal(b" 1"), None);
    assert_eq!(parse_decimal(b"1a"), None);
    assert_eq!(parse_decimal(b"18446744073709551616"), None);
    assert_eq!(parse_decimal(b"99999999999999999999999"), None);
    for text in ["0", "5", "+5", "05", "-5", "", "x", "18446744073709551615", "18446744073709551616"] {
        assert_eq!(parse_decimal(text.as_bytes()), text.parse::<usize>().ok());
    }
    let mut buf = b"n=".to_vec();
    push_decimal(&mut buf, 0);
    push_decimal(&mut buf, 10);
    push_decimal(&mut buf, u64::MAX);
    assert_eq!(buf, b"n=01018446744073709551615");
}

#[test]
fn searching_bytes() {
    assert_eq!(find_byte(b"a?b?c", b'?'), Some(1));
    assert_eq!(find_byte(b"abc", b'?'), None);
    assert_eq!(find_byte(b"", b'?'), None);
    assert_eq!(find_bytes(b"xx boundary=1 boundary=2", b"boundary="), Some(3));
    assert_eq!(find_bytes(b"boundary", b"boundary="), None);
    assert_eq!(find_bytes(b"abc", b""), Some(0));
    assert_eq!(find_bytes(b"", b""), Some(0));
    assert_eq!(find_bytes(b"aab", b"ab"), Some(1));
    assert!(bytes_eq(b"ab", b"ab"));
    assert!(!bytes_eq(b"ab", b"abc"));
    assert!(!bytes_eq(b"ab", b"aB"));
    assert!(str_eq("GET", "GET"));
    assert!(!str_eq("GET", "get"));
}

#[test]
fn text_of_bytes() {
    assert_eq!(text_of(b"plain"), "plain");
    assert_eq!(text_of("h\u{e9}llo \u{1f600}".as_bytes()), "h\u{e9}llo \u{1f600}");
    assert_eq!(text_of(b"\xff\xfe"), "");
    assert_eq!(text_of(b"ab\xc3"), "");
    assert_eq!(text_of(b""), "");
}
