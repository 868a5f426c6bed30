use grpc_client::{decode_message, percent_decode, status_from_headers, Code, CompressionEncoding, EnabledCompressionEncodings, Metadata, Status};

fn meta(pairs: &[(&str, &str)]) -> Metadata {
    let mut m = Metadata::new();
    for (k, v) in pairs {
        m.insert(k.to_string(), v.to_string());
    }
    m
}

#[test]
fn code_from_header_text() {
    assert_eq!(Code::from_text("0"), Code::Success);
    assert_eq!(Code::from_text("7"), Code::PermissionDenied);
    assert_eq!(Code::from_text("9"), Code::FailedPrecondition);
    assert_eq!(Code::from_text("10"), Code::Aborted);
    assert_eq!(Code::from_text("16"), Code::Unauthenticated);
    assert_eq!(Code::from_text("17"), Code::Unknown);
    assert_eq!(Code::from_text("07"), Code::Unknown);
    assert_eq!(Code::from_text(""), Code::Unknown);
    assert_eq!(Code::from_text("x"), Code::Unknown);
    assert_eq!(Code::from_text("100"), Code::Unknown);
}

#[test]
fn metadata_lookup_and_merge() {
    let mut a = meta(&[("a", "1"), ("b", "2"), ("a", "3")]);
    assert_eq!(a.get("a"), Some("1".to_string()));
    assert_eq!(a.get("c"), None);
    a.merge(meta(&[("c", "4")]));
    assert_eq!(a.entries.len(), 4);
    assert_eq!(a.get("c"), Some("4".to_string()));
    let b = a.clone_all();
    assert_eq!(b.entries, a.entries);
}

#[test]
fn status_from_header_block() {
    assert!(status_from_headers(&meta(&[("content-type", "application/grpc")])).is_none());
    let s = status_from_headers(&meta(&[("grpc-status", "5"), ("grpc-message", "gone")])).unwrap();
    assert_eq!(s.code, Code::NotFound);
    assert_eq!(s.message, "gone");
    assert_eq!(s.metadata.entries.len(), 2);
    let s = status_from_headers(&meta(&[("grpc-status", "0")])).unwrap();
    assert_eq!(s.code, Code::Success);
    assert_eq!(s.message, "");
    let s = Status::new(Code::Internal, "x".to_string());
    assert!(s.metadata.entries.is_empty());
}

#[test]
fn accepted_encodings_in_order_without_repeats() {
    let mut e = EnabledCompressionEncodings::new();
    assert_eq!(e.accept_encoding_value(), None);
    e.enable(CompressionEncoding::Zstd);
    e.enable(CompressionEncoding::Gzip);
    e.enable(CompressionEncoding::Zstd);
    assert_eq!(e.inner, vec![CompressionEncoding::Zstd, CompressionEncoding::Gzip]);
    assert!(e.is_enabled(CompressionEncoding::Gzip));
    assert!(!e.is_enabled(CompressionEncoding::Deflate));
    assert_eq!(e.accept_encoding_value(), Some("zstd,gzip,identity".to_string()));
    assert_eq!(CompressionEncoding::Deflate.as_str(), "deflate");
}

#[test]
fn response_encoding_negotiation() {
    let mut e = EnabledCompressionEncodings::new();
    assert_eq!(e.from_encoding_header(&meta(&[])).unwrap(), None);
    assert_eq!(e.from_encoding_header(&meta(&[("grpc-encoding", "identity")])).unwrap(), None);
    let s = e.from_encoding_header(&meta(&[("grpc-encoding", "X")])).unwrap_err();
    assert_eq!(s.code, Code::Unimplemented);
    assert_eq!(s.message, "Content is compressed with `X` which isn't supported");
    assert_eq!(s.metadata.get("grpc-accept-encoding"), Some("identity".to_string()));
    assert!(e.from_encoding_header(&meta(&[("grpc-encoding", "gzip")])).is_err());
    e.enable(CompressionEncoding::Gzip);
    assert_eq!(
        e.from_encoding_header(&meta(&[("grpc-encoding", "gzip")])).unwrap(),
        Some(CompressionEncoding::Gzip)
    );
    let s = e.from_encoding_header(&meta(&[("grpc-encoding", "zstd")])).unwrap_err();
    assert_eq!(s.metadata.get("grpc-accept-encoding"), Some("gzip,identity".to_string()));
}

#[test]
fn status_message_is_percent_decoded() {
    assert_eq!(percent_decode(b"a%20b%2x%"), b"a b%2x%".to_vec());
    assert_eq!(percent_decode(b"%4a%4A"), b"JJ".to_vec());
    assert_eq!(decode_message("gone%20away"), "gone away");
    assert_eq!(decode_message("caf%C3%A9"), "caf\u{e9}");
    assert_eq!(decode_message("100%"), "100%");
    assert_eq!(decode_message("bad%FF"), "bad%FF");
    let s = status_from_headers(&meta(&[("grpc-status", "3"), ("grpc-message", "no%3A%20input")])).unwrap();
    assert_eq!(s.code, Code::InvalidArgument);
    assert_eq!(s.message, "no: input");
}
