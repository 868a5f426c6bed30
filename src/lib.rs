//! Client-side dispatcher of a framed RPC protocol over a stream-capable
//! HTTP transport: framing, compression negotiation, request building and
//! response classification, with the four call shapes on one primitive.

pub mod client;
pub mod compression;
pub mod framing;
pub mod request;
pub mod response;
pub mod status;

pub use compression::{CompressionEncoding, EnabledCompressionEncodings};
pub use status::{Code, Metadata, Status};
pub use framing::{decode_body, decode_next, encode_body, encode_frame, Frame, FrameError};
pub use response::{decode_message, percent_decode, status_from_headers, Response, StreamState, Streaming};
pub use request::{CallTarget, HttpRequest, HttpResponse, HttpVersion, InvalidPath, Origin, TransportError};
pub use client::{finish_client_streaming, status_from_transport_error, Grpc, GrpcConfig, GrpcService};
pub use status::decimal_string;
