use tokio_http2::http2::kind::Kind;

#[test]
fn test_encode() {
    for n in 0..10 {
        assert_eq!(Kind::new(n), Kind::new(Kind::new(n).encode()));
    }
}

#[test]
fn registered_bytes_are_written_back() {
    for n in 0..10u8 {
        assert_eq!(Kind::new(n).encode(), n);
    }
}

#[test]
fn unknown_bytes_read_as_unregistered() {
    for n in 10..=255u8 {
        assert_eq!(Kind::new(n), Kind::Unregistered);
        assert_eq!(Kind::new(n).encode(), 255);
    }
}
