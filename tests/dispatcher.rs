use grpc_client::{
    encode_body, finish_client_streaming, status_from_transport_error, CallTarget, Code, CompressionEncoding, Grpc, GrpcService, HttpRequest,
    HttpResponse, HttpVersion, Metadata, Origin, Response, StreamState, Streaming, TransportError,
};

struct Fake {
    response: Option<Result<HttpResponse, TransportError>>,
    calls: usize,
    last: Option<HttpRequest>,
}

impl GrpcService for Fake {
    fn ready(&mut self) -> Result<(), TransportError> {
        Ok(())
    }

    fn call(&mut self, request: HttpRequest) -> Result<HttpResponse, TransportError> {
        self.calls += 1;
        self.last = Some(request);
        self.response.take().unwrap()
    }
}

fn meta(pairs: &[(&str, &str)]) -> Metadata {
    let mut m = Metadata::new();
    for (k, v) in pairs {
        m.insert(k.to_string(), v.to_string());
    }
    m
}

fn fake(headers: &[(&str, &str)], body: Vec<u8>, trailers: Option<&[(&str, &str)]>) -> Fake {
    Fake {
        response: Some(Ok(HttpResponse { status: 200, headers: meta(headers), body, trailers: trailers.map(meta) })),
        calls: 0,
        last: None,
    }
}

fn origin(base: Option<&str>) -> Origin {
    Origin {
        scheme: Some("http".to_string()),
        authority: Some("example.com:50051".to_string()),
        base_path: base.map(|b| b.to_string()),
    }
}

fn target(g: &Grpc<Fake>) -> CallTarget {
    g.target("/svc/Method").unwrap()
}

#[test]
fn path_joins_base_path() {
    let g = Grpc::with_origin(fake(&[], vec![], None), origin(Some("/api")));
    assert_eq!(g.target("/svc/Method").unwrap().path(), "/api/svc/Method");
    let g = Grpc::with_origin(fake(&[], vec![], None), origin(Some("/")));
    assert_eq!(g.target("/svc/Method").unwrap().path(), "/svc/Method");
    let g = Grpc::new(fake(&[], vec![], None));
    assert_eq!(g.target("/svc/Method").unwrap().path(), "/svc/Method");
    assert!(g.target("/svc/Me thod").is_err());
    assert_eq!(g.target("/svc/Method#part").unwrap().path(), "/svc/Method");
    assert_eq!(g.target("/svc/Method?x=1").unwrap().path(), "/svc/Method?x=1");
}

#[test]
fn request_carries_protocol_headers() {
    let g = Grpc::with_origin(fake(&[], vec![], None), origin(None))
        .send_compressed(CompressionEncoding::Gzip)
        .accept_compressed(CompressionEncoding::Gzip)
        .accept_compressed(CompressionEncoding::Zstd);
    let t = target(&g);
    let r = g.config.prepare_request(&t, vec![1u8]);
    assert_eq!(r.method, "POST");
    assert_eq!(r.version, HttpVersion::Http2);
    assert_eq!(r.path, "/svc/Method");
    assert_eq!(r.authority, Some("example.com:50051".to_string()));
    let h: Vec<(String, String)> = r.headers.entries.clone();
    let want: Vec<(String, String)> = vec![
        ("te".into(), "trailers".into()),
        ("content-type".into(), "application/grpc".into()),
        ("grpc-encoding".into(), "gzip".into()),
        ("grpc-accept-encoding".into(), "gzip,zstd,identity".into()),
    ];
    assert_eq!(h, want);
    let g = Grpc::new(fake(&[], vec![], None));
    let r = g.config.prepare_request(&target(&g), vec![]);
    assert_eq!(r.headers.entries.len(), 2);
}

#[test]
fn unary_round_trip() {
    let body = encode_body(&vec![vec![4u8, 5]], false, None).unwrap();
    let mut g = Grpc::new(fake(&[("x-id", "1")], body, Some(&[("grpc-status", "0"), ("x-t", "2")])));
    let t = target(&g);
    g.ready().unwrap();
    let r = g.unary(vec![9u8], &t).unwrap();
    assert_eq!(r.message.payload, vec![4u8, 5]);
    assert!(!r.message.compressed);
    assert_eq!(r.metadata.get("x-id"), Some("1".to_string()));
    assert_eq!(r.metadata.get("x-t"), Some("2".to_string()));
    let sent = g.inner.last.as_ref().unwrap();
    assert_eq!(sent.body, vec![0u8, 0, 0, 0, 1, 9]);
}

#[test]
fn oversized_request_never_reaches_transport() {
    let mut g = Grpc::new(fake(&[], vec![], None)).max_encoding_message_size(2);
    let t = target(&g);
    let s = g.client_streaming(vec![vec![1u8], vec![1u8, 2, 3]], &t).unwrap_err();
    assert_eq!(s.code, Code::OutOfRange);
    assert_eq!(g.inner.calls, 0);
}

#[test]
fn oversized_response_message_fails_sequence() {
    let body = encode_body(&vec![vec![1u8; 8]], false, None).unwrap();
    let mut g = Grpc::new(fake(&[], body, Some(&[("grpc-status", "0")]))).max_decoding_message_size(4);
    let t = target(&g);
    let mut r = g.server_streaming(vec![], &t).unwrap();
    let s = r.message.message().unwrap_err();
    assert_eq!(s.code, Code::OutOfRange);
    assert_eq!(r.message.state, StreamState::Failed);
    assert!(r.message.message().unwrap().is_none());
}

#[test]
fn trailers_only_error_is_immediate() {
    let mut g = Grpc::new(fake(&[("grpc-status", "7"), ("grpc-message", "no")], vec![9u8, 9, 9], None));
    let t = target(&g);
    let s = g.streaming(vec![vec![1u8]], &t).unwrap_err();
    assert_eq!(s.code, Code::PermissionDenied);
    assert_eq!(s.message, "no");
    assert_eq!(g.inner.calls, 1);
}

#[test]
fn unadvertised_encoding_is_rejected() {
    let body = encode_body(&vec![vec![1u8]], false, None).unwrap();
    let mut g = Grpc::new(fake(&[("grpc-encoding", "X")], body, Some(&[("grpc-status", "0")])));
    let t = target(&g);
    let s = g.streaming(vec![], &t).unwrap_err();
    assert_eq!(s.code, Code::Unimplemented);
    assert_eq!(s.message, "Content is compressed with `X` which isn't supported");
}

#[test]
fn trailers_only_ok_without_message() {
    let mut g = Grpc::new(fake(&[("grpc-status", "0")], vec![], None));
    let t = target(&g);
    let s = g.client_streaming(vec![vec![1u8], vec![2u8]], &t).unwrap_err();
    assert_eq!(s.code, Code::Internal);
    assert_eq!(s.message, "Missing response message.");
}

#[test]
fn server_streaming_yields_all_then_ends() {
    let body = encode_body(&vec![vec![1u8], vec![2u8], vec![3u8]], false, None).unwrap();
    let mut g = Grpc::new(fake(&[], body, Some(&[("grpc-status", "0")])));
    let t = target(&g);
    let mut r = g.server_streaming(vec![0u8], &t).unwrap();
    let mut got = Vec::new();
    while let Some(f) = r.message.message().unwrap() {
        got.push(f.payload);
    }
    assert_eq!(got, vec![vec![1u8], vec![2u8], vec![3u8]]);
    assert_eq!(r.message.state, StreamState::Finished);
    assert_eq!(r.message.trailers().unwrap().unwrap().get("grpc-status"), Some("0".to_string()));
}

#[test]
fn trailer_status_and_missing_trailers() {
    let body = encode_body(&vec![vec![1u8]], false, None).unwrap();
    let mut g = Grpc::new(fake(&[], body.clone(), Some(&[("grpc-status", "5"), ("grpc-message", "gone")])));
    let t = target(&g);
    let mut r = g.streaming(vec![], &t).unwrap();
    assert_eq!(r.message.message().unwrap().unwrap().payload, vec![1u8]);
    let s = r.message.message().unwrap_err();
    assert_eq!(s.code, Code::NotFound);
    assert_eq!(s.message, "gone");

    let mut g = Grpc::new(fake(&[], body, None));
    let t = target(&g);
    let mut r = g.streaming(vec![], &t).unwrap();
    let s = r.message.trailers().unwrap_err();
    assert_eq!(s.code, Code::Internal);
    assert_eq!(s.message, "missing trailers");
}

#[test]
fn failed_pull_carries_header_metadata() {
    let stream = Streaming::new_response(meta(&[("x-id", "7")]), vec![0u8, 0, 0, 0, 9], false, None, 200, None);
    let r = finish_client_streaming(Response { metadata: meta(&[("x-id", "7")]), message: stream }).unwrap_err();
    assert_eq!(r.code, Code::Internal);
    assert_eq!(r.message, "Unexpected EOF decoding stream.");
    assert_eq!(r.metadata.get("x-id"), Some("7".to_string()));
    let empty = Streaming::new_empty(Metadata::new());
    let r = finish_client_streaming(Response { metadata: Metadata::new(), message: empty }).unwrap_err();
    assert_eq!(r.message, "Missing response message.");
}

#[test]
fn transport_failure_becomes_unknown_status() {
    let mut g = Grpc::new(Fake {
        response: Some(Err(TransportError { message: "connection reset".to_string() })),
        calls: 0,
        last: None,
    });
    let t = target(&g);
    let s = g.unary(vec![], &t).unwrap_err();
    assert_eq!(s.code, Code::Unknown);
    assert_eq!(s.message, "connection reset");
}

#[test]
fn pulled_size_error_carries_headers() {
    let body = encode_body(&vec![vec![1u8; 8]], false, None).unwrap();
    let mut g = Grpc::new(fake(&[("x-id", "3")], body, Some(&[("grpc-status", "0")]))).max_decoding_message_size(4);
    let t = target(&g);
    let mut r = g.streaming(vec![], &t).unwrap();
    let s = r.message.message().unwrap_err();
    assert_eq!(s.code, Code::OutOfRange);
    assert_eq!(s.metadata.get("x-id"), Some("3".to_string()));
    assert_eq!(s.metadata.entries.len(), 1);
}

#[test]
fn trailer_status_carries_headers_then_trailers() {
    let mut g = Grpc::new(fake(&[("x-id", "3")], vec![], Some(&[("grpc-status", "14"), ("grpc-message", "later")])));
    let t = target(&g);
    let s = g.client_streaming(vec![], &t).unwrap_err();
    assert_eq!(s.code, Code::Unavailable);
    assert_eq!(s.message, "later");
    let names: Vec<&str> = s.metadata.entries.iter().map(|e| e.0.as_str()).collect();
    assert_eq!(names, vec!["x-id", "grpc-status", "grpc-message"]);
}

#[test]
fn transport_error_mapping() {
    let s = status_from_transport_error(TransportError { message: "refused".to_string() });
    assert_eq!(s.code, Code::Unknown);
    assert_eq!(s.message, "refused");
    assert!(s.metadata.entries.is_empty());
}

#[test]
fn setters_keep_transport() {
    let mut f = fake(&[], vec![], None);
    f.calls = 5;
    let g = Grpc::new(f)
        .send_compressed(CompressionEncoding::Zstd)
        .accept_compressed(CompressionEncoding::Deflate)
        .max_decoding_message_size(10)
        .max_encoding_message_size(20);
    assert_eq!(g.inner.calls, 5);
    assert_eq!(g.config.send_compression_encodings, Some(CompressionEncoding::Zstd));
    assert_eq!(g.config.max_decoding_message_size, Some(10));
    assert_eq!(g.config.max_encoding_message_size, Some(20));
}

#[test]
fn collect_returns_every_message_in_order() {
    let msgs = vec![vec![1u8, 2], vec![], vec![3u8; 100]];
    let body = encode_body(&msgs, false, None).unwrap();
    let mut g = Grpc::new(fake(&[], body, Some(&[("grpc-status", "0")])));
    let t = target(&g);
    let mut r = g.streaming(msgs.clone(), &t).unwrap();
    let frames = r.message.collect().unwrap();
    let got: Vec<Vec<u8>> = frames.into_iter().map(|f| f.payload).collect();
    assert_eq!(got, msgs);
    assert_eq!(r.message.state, StreamState::Finished);
    assert!(r.message.collect().unwrap().is_empty());
    let sent = g.inner.last.as_ref().unwrap();
    assert_eq!(sent.body, encode_body(&msgs, false, None).unwrap());
}

#[test]
fn collect_of_empty_body_is_empty() {
    let mut g = Grpc::new(fake(&[], vec![], Some(&[("grpc-status", "0")])));
    let t = target(&g);
    let mut r = g.streaming(vec![], &t).unwrap();
    assert!(r.message.collect().unwrap().is_empty());
}
