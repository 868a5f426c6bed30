use vstd::prelude::*;
use vstd::string::*;
use crate::compression::{
    accept_encoding_header, accept_value, encoding_header, negotiated, token, unsupported_message, CompressionEncoding,
    EnabledCompressionEncodings,
};
use crate::framing::{
    encode_body, encode_spec, is_outbound_error, lemma_inbound_status_differs,
    lemma_parse_error_inbound, parse_from, reports_frame_error, step_at, Frame, FrameError,
};
use crate::request::{CallTarget, HttpRequest, HttpResponse, HttpVersion, Origin, TransportError};
use crate::response::{carried_code, end_error_with, frame_error_with, is_carried_status, status_from_headers, trailer_code, Response, StreamState, Streaming};
use crate::status::{lookup, Code, Metadata, Status};

verus! {

/// The transport a dispatcher sends its calls through.
pub trait GrpcService {
    /// Waits until the transport can take one more call.
    fn ready(&mut self) -> Result<(), TransportError>;

    /// Performs one exchange.
    fn call(&mut self, request: HttpRequest) -> Result<HttpResponse, TransportError>;
}

/// The settings of a dispatcher, read by every call.
#[derive(Clone, Debug)]
pub struct GrpcConfig {
    pub origin: Origin,
    /// Encodings accepted for responses.
    pub accept_compression_encodings: EnabledCompressionEncodings,
    /// The encoding requests are sent with.
    pub send_compression_encodings: Option<CompressionEncoding>,
    /// Ceiling on the size of a decoded message.
    pub max_decoding_message_size: Option<usize>,
    /// Ceiling on the size of an encoded message.
    pub max_encoding_message_size: Option<usize>,
}

/// The headers of every outbound request: trailers are expected, the
/// protocol's content type, the outbound encoding if one is set, and the
/// accepted encodings if any is enabled.
pub open spec fn request_headers(send: Option<CompressionEncoding>, accept: Seq<CompressionEncoding>) -> Seq<(Seq<char>, Seq<char>)> {
    seq![("te"@, "trailers"@), ("content-type"@, "application/grpc"@)]
        + match send {
            Some(e) => seq![(encoding_header(), token(e))],
            None => Seq::empty(),
        }
        + match accept_value(accept) {
            Some(v) => seq![(accept_encoding_header(), v)],
            None => Seq::empty(),
        }
}

/// The bytes of the outbound body of `msgs` under `c`.
pub open spec fn body_spec(c: GrpcConfig, msgs: Seq<Vec<u8>>) -> Result<Seq<u8>, FrameError> {
    encode_spec(msgs.map_values(|m: Vec<u8>| m@), c.send_compression_encodings is Some, c.max_encoding_message_size)
}

/// `s` reports an outbound size-limit error.
pub open spec fn reports_outbound_error(s: Status) -> bool {
    exists|o: FrameError| is_outbound_error(o) && #[trigger] reports_frame_error(s, o, 0)
}

/// Message of the error for a response with no message where one was owed.
pub open spec fn missing_message() -> Seq<char> {
    "Missing response message."@
}

impl GrpcConfig {
    pub open spec fn wf(&self) -> bool {
        self.accept_compression_encodings.wf()
    }

    /// Builds the wire request of a call: POST over HTTP/2 to the target
    /// under the origin, with the protocol headers and the given body.
    pub fn prepare_request(&self, target: &CallTarget, body: Vec<u8>) -> (r: HttpRequest)
        ensures
            r.method@ == "POST"@,
            r.version == HttpVersion::Http2,
            r.scheme == self.origin.scheme,
            r.authority == self.origin.authority,
            r.path@ == target@,
            r.headers.pairs() == request_headers(self.send_compression_encodings, self.accept_compression_encodings@),
            r.body == body,
    {
        let mut headers = Metadata::new();
        headers.insert(String::from_str("te"), String::from_str("trailers"));
        headers.insert(String::from_str("content-type"), String::from_str("application/grpc"));
        let ghost base = seq![("te"@, "trailers"@), ("content-type"@, "application/grpc"@)];
        assert(headers.pairs() =~= base);
        let ghost with_send = base + match self.send_compression_encodings {
            Some(e) => seq![(encoding_header(), token(e))],
            None => Seq::<(Seq<char>, Seq<char>)>::empty(),
        };
        if let Some(e) = self.send_compression_encodings {
            headers.insert(String::from_str("grpc-encoding"), String::from_str(e.as_str()));
        }
        assert(headers.pairs() =~= with_send);
        if let Some(v) = self.accept_compression_encodings.accept_encoding_value() {
            headers.insert(String::from_str("grpc-accept-encoding"), v);
        }
        assert(headers.pairs() =~= request_headers(self.send_compression_encodings, self.accept_compression_encodings@));
        HttpRequest {
            method: String::from_str("POST"),
            version: HttpVersion::Http2,
            scheme: match &self.origin.scheme {
                Some(s) => Some(s.clone()),
                None => None,
            },
            authority: match &self.origin.authority {
                Some(a) => Some(a.clone()),
                None => None,
            },
            path: target.path().clone(),
            headers,
            body,
        }
    }

    /// Frames the outbound messages and builds the wire request; a message
    /// over the encoding ceiling aborts the call before any request exists.
    /// The payloads are taken as they are to be sent: where an outbound
    /// encoding is set, the caller hands them in already compressed with it,
    /// and each frame is flagged compressed.
    pub fn prepare_call(&self, request: &Vec<Vec<u8>>, target: &CallTarget) -> (r: Result<HttpRequest, Status>)
        ensures
            match body_spec(*self, request@) {
                Err(e) => r matches Err(s) && reports_frame_error(s, e, 0),
                Ok(b) => r matches Ok(q) && q.body@ == b && q.path@ == target@
                    && q.headers.pairs() == request_headers(self.send_compression_encodings, self.accept_compression_encodings@),
            },
    {
        let compressed = self.send_compression_encodings.is_some();
        match encode_body(request, compressed, self.max_encoding_message_size) {
            Err(e) => Err(e.to_status(0)),
            Ok(body) => Ok(self.prepare_request(target, body)),
        }
    }

    /// Classifies a response: an unadvertised encoding or a non-OK status
    /// in the header block fails at once without the body being read; an OK
    /// status there gives an already complete sequence; otherwise the body
    /// is read frame by frame under the decoding ceiling.
    pub fn create_response(&self, response: HttpResponse) -> (r: Result<Response<Streaming>, Status>)
        ensures
            match lookup(response.headers.entries@, encoding_header()) {
                Some(v) if negotiated(v@, self.accept_compression_encodings@) is None =>
                    r matches Err(s) && s.code == Code::Unimplemented && s.message@ == unsupported_message(v@)
                        && s.metadata.entries@.len() == 1
                        && s.metadata.entries@[0].0@ == accept_encoding_header()
                        && s.metadata.entries@[0].1@ == match accept_value(self.accept_compression_encodings@) {
                            Some(a) => a,
                            None => "identity"@,
                        },
                _ => match carried_code(response.headers.entries@) {
                    Some(c) => if c == Code::Success {
                        r matches Ok(resp) && resp.message.state == StreamState::Finished
                            && resp.message.trailers is None && resp.message.wf()
                            && resp.message.headers.entries@ == response.headers.entries@
                            && resp.metadata.entries@ == response.headers.entries@
                    } else {
                        r matches Err(s) && is_carried_status(s, response.headers)
                    },
                    None => r matches Ok(resp) && resp.message.state == StreamState::Live
                        && resp.message.wf()
                        && resp.message.body == response.body && resp.message.pos == 0
                        && resp.message.encoded == (lookup(response.headers.entries@, encoding_header()) matches Some(v)
                            && negotiated(v@, self.accept_compression_encodings@) matches Some(Some(_)))
                        && resp.message.limit == self.max_decoding_message_size
                        && resp.message.http_status == response.status
                        && resp.message.trailers == response.trailers
                        && resp.message.headers.entries@ == response.headers.entries@
                        && resp.metadata.entries@ == response.headers.entries@,
                },
            },
    {
        let encoding = match self.accept_compression_encodings.from_encoding_header(&response.headers) {
            Err(s) => {
                return Err(s);
            },
            Ok(e) => e,
        };
        let message = match status_from_headers(&response.headers) {
            Some(s) => {
                if s.code != Code::Success {
                    return Err(s);
                }
                Streaming::new_empty(response.headers.clone_all())
            },
            None => Streaming::new_response(
                response.headers.clone_all(),
                response.body,
                encoding.is_some(),
                self.max_decoding_message_size,
                response.status,
                response.trailers,
            ),
        };
        Ok(Response { metadata: response.headers, message })
    }
}

/// Takes the one message of a client-streaming call from its response
/// sequence, then its trailers into the response metadata. A failed pull
/// or trailer read carries the stream's header block (and the trailers that
/// hold its status); no message at all is an `Internal` error.
pub fn finish_client_streaming(response: Response<Streaming>) -> (r: Result<Response<Frame>, Status>)
    requires
        response.message.wf(),
    ensures
        ({
            let st = response.message;
            let h = st.headers.entries@;
            let missing = r matches Err(s) && s.code == Code::Internal && s.message@ == missing_message();
            if st.state != StreamState::Live {
                missing
            } else if st.pos == st.body@.len() {
                if trailer_code(st.trailers) == Some(Code::Success) {
                    missing
                } else {
                    r matches Err(s) && end_error_with(s, st.trailers, h)
                }
            } else {
                match step_at(st.body@, st.pos as int, st.encoded, st.limit) {
                    Err(e) => r matches Err(s) && frame_error_with(s, e, st.http_status, h),
                    Ok(None) => r matches Err(s) && frame_error_with(s, FrameError::UnexpectedEof, st.http_status, h),
                    Ok(Some(f)) => match parse_from(st.body@, f.2, st.encoded, st.limit) {
                        Err(e) => r matches Err(s) && frame_error_with(s, e, st.http_status, h),
                        Ok(_) => if trailer_code(st.trailers) == Some(Code::Success) {
                            r matches Ok(resp) && resp.message.compressed == f.0 && resp.message.payload@ == f.1
                                && resp.metadata.entries@ == response.metadata.entries@ + st.trailers->0.entries@
                        } else {
                            r matches Err(s) && end_error_with(s, st.trailers, h)
                        },
                    },
                }
            }
        }),
{
    let mut parts = response.metadata;
    let mut body = response.message;
    let message = match body.message() {
        Err(s) => {
            return Err(s);
        },
        Ok(None) => {
            return Err(Status::new(Code::Internal, String::from_str("Missing response message.")));
        },
        Ok(Some(m)) => m,
    };
    match body.trailers() {
        Err(s) => {
            return Err(s);
        },
        Ok(Some(t)) => {
            parts.merge(t);
        },
        Ok(None) => {},
    }
    Ok(Response { metadata: parts, message })
}

/// The status a transport failure becomes: `Unknown`, with the failure's
/// message and no metadata.
pub fn status_from_transport_error(e: TransportError) -> (r: Status)
    ensures
        r.code == Code::Unknown,
        r.message == e.message,
        r.metadata.entries@.len() == 0,
{
    Status::new(Code::Unknown, e.message)
}

/// A dispatcher: a transport and the settings its calls are made with.
#[derive(Clone, Debug)]
pub struct Grpc<T> {
    pub inner: T,
    pub config: GrpcConfig,
}

impl<T: GrpcService> Grpc<T> {
    /// A dispatcher over `inner` with an empty origin.
    pub fn new(inner: T) -> (r: Self)
        ensures
            r.inner == inner,
            r.config.wf(),
            r.config.origin.scheme is None,
            r.config.origin.authority is None,
            r.config.origin.base_path is None,
            r.config.accept_compression_encodings@.len() == 0,
            r.config.send_compression_encodings is None,
            r.config.max_decoding_message_size is None,
            r.config.max_encoding_message_size is None,
    {
        Self::with_origin(inner, Origin::empty())
    }

    /// A dispatcher over `inner` whose calls go to `origin`.
    pub fn with_origin(inner: T, origin: Origin) -> (r: Self)
        ensures
            r.inner == inner,
            r.config.wf(),
            r.config.origin == origin,
            r.config.accept_compression_encodings@.len() == 0,
            r.config.send_compression_encodings is None,
            r.config.max_decoding_message_size is None,
            r.config.max_encoding_message_size is None,
    {
        Grpc {
            inner,
            config: GrpcConfig {
                origin,
                accept_compression_encodings: EnabledCompressionEncodings::new(),
                send_compression_encodings: None,
                max_decoding_message_size: None,
                max_encoding_message_size: None,
            },
        }
    }

    /// Sends requests compressed with `encoding`.
    pub fn send_compressed(self, encoding: CompressionEncoding) -> (r: Self)
        ensures
            r.inner == self.inner,
            r.config.send_compression_encodings == Some(encoding),
            r.config.origin == self.config.origin,
            r.config.accept_compression_encodings == self.config.accept_compression_encodings,
            r.config.max_decoding_message_size == self.config.max_decoding_message_size,
            r.config.max_encoding_message_size == self.config.max_encoding_message_size,
    {
        let mut s = self;
        s.config.send_compression_encodings = Some(encoding);
        s
    }

    /// Accepts responses compressed with `encoding`, besides those already
    /// accepted.
    pub fn accept_compressed(self, encoding: CompressionEncoding) -> (r: Self)
        ensures
            r.inner == self.inner,
            self.config.wf() ==> r.config.wf(),
            self.config.accept_compression_encodings@.contains(encoding)
                ==> r.config.accept_compression_encodings@ == self.config.accept_compression_encodings@,
            !self.config.accept_compression_encodings@.contains(encoding)
                ==> r.config.accept_compression_encodings@ == self.config.accept_compression_encodings@.push(encoding),
            r.config.send_compression_encodings == self.config.send_compression_encodings,
            r.config.origin == self.config.origin,
            r.config.max_decoding_message_size == self.config.max_decoding_message_size,
            r.config.max_encoding_message_size == self.config.max_encoding_message_size,
    {
        let mut s = self;
        s.config.accept_compression_encodings.enable(encoding);
        s
    }

    /// Sets the ceiling on the size of a decoded message.
    pub fn max_decoding_message_size(self, limit: usize) -> (r: Self)
        ensures
            r.inner == self.inner,
            r.config.max_decoding_message_size == Some(limit),
            r.config.origin == self.config.origin,
            r.config.accept_compression_encodings == self.config.accept_compression_encodings,
            r.config.send_compression_encodings == self.config.send_compression_encodings,
            r.config.max_encoding_message_size == self.config.max_encoding_message_size,
    {
        let mut s = self;
        s.config.max_decoding_message_size = Some(limit);
        s
    }

    /// Sets the ceiling on the size of an encoded message.
    pub fn max_encoding_message_size(self, limit: usize) -> (r: Self)
        ensures
            r.inner == self.inner,
            r.config.max_encoding_message_size == Some(limit),
            r.config.origin == self.config.origin,
            r.config.accept_compression_encodings == self.config.accept_compression_encodings,
            r.config.send_compression_encodings == self.config.send_compression_encodings,
            r.config.max_decoding_message_size == self.config.max_decoding_message_size,
    {
        let mut s = self;
        s.config.max_encoding_message_size = Some(limit);
        s
    }

    /// Waits until the transport can take one more call; its error is
    /// returned as it is.
    pub fn ready(&mut self) -> (r: Result<(), TransportError>)
        ensures
            final(self).config == old(self).config,
    {
        self.inner.ready()
    }

    /// The wire target of `path` under this dispatcher's origin.
    pub fn target(&self, path: &str) -> (r: Result<CallTarget, crate::request::InvalidPath>)
        ensures
            match crate::request::parsed_path(crate::request::joined_path(self.config.origin.base_path, path@)) {
                Some(p) => r matches Ok(t) && t@ == p,
                None => r is Err,
            },
    {
        self.config.origin.target(path)
    }

    /// The streaming primitive: encodes the outbound messages, sends the
    /// request, and classifies the response. A message over the encoding
    /// ceiling fails the call before the transport is reached; a transport
    /// failure becomes an `Unknown` status with its message.
    pub fn streaming(&mut self, request: Vec<Vec<u8>>, target: &CallTarget) -> (r: Result<Response<Streaming>, Status>)
        ensures
            final(self).config == old(self).config,
            body_spec(old(self).config, request@) matches Err(e) ==> (r matches Err(s) && reports_frame_error(s, e, 0)
                && final(self).inner == old(self).inner),
            (r matches Err(s) && s.metadata.entries@.len() == 0
                && (s.code == Code::OutOfRange || s.code == Code::ResourceExhausted))
                ==> body_spec(old(self).config, request@) is Err,
            r matches Ok(resp) ==> resp.message.wf()
                && (resp.message.state == StreamState::Live ==> resp.message.pos == 0
                    && resp.message.limit == old(self).config.max_decoding_message_size),
    {
        let http_request = match self.config.prepare_call(&request, target) {
            Err(s) => {
                return Err(s);
            },
            Ok(q) => q,
        };
        match self.inner.call(http_request) {
            Err(e) => Err(status_from_transport_error(e)),
            Ok(response) => self.config.create_response(response),
        }
    }

    /// Sends a stream of messages and takes back exactly one.
    pub fn client_streaming(&mut self, request: Vec<Vec<u8>>, target: &CallTarget) -> (r: Result<Response<Frame>, Status>)
        ensures
            final(self).config == old(self).config,
            body_spec(old(self).config, request@) matches Err(e) ==> (r matches Err(s) && reports_frame_error(s, e, 0)
                && final(self).inner == old(self).inner),
            (r matches Err(s) && reports_outbound_error(s)) ==> body_spec(old(self).config, request@) is Err,
            (r is Ok && old(self).config.max_decoding_message_size is Some)
                ==> r->Ok_0.message.payload@.len() <= old(self).config.max_decoding_message_size->Some_0,
    {
        match self.streaming(request, target) {
            Err(s) => Err(s),
            Ok(response) => {
                let ghost st = response.message;
                let r = finish_client_streaming(response);
                proof {
                    lemma_parse_error_inbound(st.body@, st.pos as int, st.encoded, st.limit);
                    if r is Err && reports_outbound_error(r->Err_0) {
                        let s = r->Err_0;
                        let o = choose|o: FrameError| is_outbound_error(o) && #[trigger] reports_frame_error(s, o, 0);
                        if st.state == StreamState::Live && st.pos < st.body@.len() {
                            match step_at(st.body@, st.pos as int, st.encoded, st.limit) {
                                Err(e) => { lemma_inbound_status_differs(e, o, st.http_status); },
                                Ok(None) => { lemma_inbound_status_differs(FrameError::UnexpectedEof, o, st.http_status); },
                                Ok(Some(f)) => {
                                    lemma_parse_error_inbound(st.body@, f.2, st.encoded, st.limit);
                                    if let Err(e) = parse_from(st.body@, f.2, st.encoded, st.limit) {
                                        lemma_inbound_status_differs(e, o, st.http_status);
                                    }
                                },
                            }
                        }
                        assert(false);
                    }
                }
                r
            },
        }
    }

    /// Sends one message and takes back exactly one.
    pub fn unary(&mut self, request: Vec<u8>, target: &CallTarget) -> (r: Result<Response<Frame>, Status>)
        ensures
            final(self).config == old(self).config,
            body_spec(old(self).config, seq![request]) matches Err(e) ==> (r matches Err(s) && reports_frame_error(s, e, 0)
                && final(self).inner == old(self).inner),
            (r matches Err(s) && reports_outbound_error(s)) ==> body_spec(old(self).config, seq![request]) is Err,
            (r is Ok && old(self).config.max_decoding_message_size is Some)
                ==> r->Ok_0.message.payload@.len() <= old(self).config.max_decoding_message_size->Some_0,
    {
        let ghost one = request;
        let msgs = vec![request];
        assert(msgs@ == seq![one]);
        self.client_streaming(msgs, target)
    }

    /// Sends one message and takes back the whole response sequence.
    pub fn server_streaming(&mut self, request: Vec<u8>, target: &CallTarget) -> (r: Result<Response<Streaming>, Status>)
        ensures
            final(self).config == old(self).config,
            body_spec(old(self).config, seq![request]) matches Err(e) ==> (r matches Err(s) && reports_frame_error(s, e, 0)
                && final(self).inner == old(self).inner),
            (r matches Err(s) && s.metadata.entries@.len() == 0
                && (s.code == Code::OutOfRange || s.code == Code::ResourceExhausted))
                ==> body_spec(old(self).config, seq![request]) is Err,
            r matches Ok(resp) ==> resp.message.wf(),
    {
        let ghost one = request;
        let msgs = vec![request];
        assert(msgs@ == seq![one]);
        self.streaming(msgs, target)
    }
}

} // verus!
