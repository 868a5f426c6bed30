use vstd::prelude::*;
use vstd::string::*;
use vstd::utf8::*;
use crate::framing::{
    decode_next, encode_spec, frame_error_code, frame_error_message, frames_view, law_round_trip, parse_from, step_at, Frame,
    FrameError,
};
use crate::status::{code_of_text, lookup, Code, Metadata, Status};

verus! {

/// Name of the header that carries the terminal status code.
pub open spec fn status_header() -> Seq<char> {
    "grpc-status"@
}

/// Name of the header that carries the terminal status message.
pub open spec fn message_header() -> Seq<char> {
    "grpc-message"@
}

/// The status code that a header block carries, if any.
pub open spec fn carried_code(h: Seq<(String, String)>) -> Option<Code> {
    match lookup(h, status_header()) {
        Some(v) => Some(code_of_text(v@)),
        None => None,
    }
}

/// The value of a hex digit byte, either case.
pub open spec fn hex_value(b: u8) -> Option<u8> {
    if 48 <= b <= 57 {
        Some((b - 48) as u8)
    } else if 65 <= b <= 70 {
        Some((b - 55) as u8)
    } else if 97 <= b <= 102 {
        Some((b - 87) as u8)
    } else {
        None
    }
}

/// Bytes with each `%` and two hex digits replaced by the byte they spell;
/// any other `%` stays as it is.
pub open spec fn percent_decoded(b: Seq<u8>) -> Seq<u8>
    decreases b.len(),
{
    if b.len() == 0 {
        Seq::empty()
    } else if b.len() >= 3 && b[0] == 37 && hex_value(b[1]) is Some && hex_value(b[2]) is Some {
        seq![(hex_value(b[1])->0 * 16 + hex_value(b[2])->0) as u8] + percent_decoded(b.subrange(3, b.len() as int))
    } else {
        seq![b[0]] + percent_decoded(b.drop_first())
    }
}

/// The text of a status-message header value: its percent-decoded bytes
/// read as UTF-8, or the value as it came where they are not UTF-8.
pub open spec fn message_text(v: Seq<char>) -> Seq<char> {
    let d = percent_decoded(encode_utf8(v));
    if valid_utf8(d) {
        decode_utf8(d)
    } else {
        v
    }
}

/// The status message that a header block carries, empty if none.
pub open spec fn carried_message(h: Seq<(String, String)>) -> Seq<char> {
    match lookup(h, message_header()) {
        Some(v) => message_text(v@),
        None => Seq::empty(),
    }
}

fn hex_digit(b: u8) -> (r: Option<u8>)
    ensures
        r == hex_value(b),
{
    if 48 <= b && b <= 57 {
        Some(b - 48)
    } else if 65 <= b && b <= 70 {
        Some(b - 55)
    } else if 97 <= b && b <= 102 {
        Some(b - 87)
    } else {
        None
    }
}

/// Percent-decodes bytes.
pub fn percent_decode(b: &[u8]) -> (r: Vec<u8>)
    ensures
        r@ == percent_decoded(b@),
{
    let mut out: Vec<u8> = Vec::new();
    let mut i: usize = 0;
    assert(b@.subrange(0, b@.len() as int) =~= b@);
    while i < b.len()
        invariant
            i <= b@.len(),
            percent_decoded(b@) == out@ + percent_decoded(b@.subrange(i as int, b@.len() as int)),
        decreases b@.len() - i,
    {
        let ghost rest = b@.subrange(i as int, b@.len() as int);
        let ghost before = out@;
        let mut step: usize = 1;
        let mut byte = b[i];
        if b[i] == 37 && b.len() - i >= 3 {
            if let (Some(h), Some(l)) = (hex_digit(b[i + 1]), hex_digit(b[i + 2])) {
                byte = h * 16 + l;
                step = 3;
            }
        }
        out.push(byte);
        proof {
            assert(rest[0] == b@[i as int]);
            if step == 3 {
                assert(rest[1] == b@[i + 1]);
                assert(rest[2] == b@[i + 2]);
                assert(rest.subrange(3, rest.len() as int) =~= b@.subrange(i + 3, b@.len() as int));
            } else {
                assert(rest.drop_first() =~= b@.subrange(i + 1, b@.len() as int));
            }
            assert(before + (seq![byte] + percent_decoded(b@.subrange(i + step, b@.len() as int)))
                =~= out@ + percent_decoded(b@.subrange(i + step, b@.len() as int)));
        }
        i = i + step;
    }
    assert(b@.subrange(i as int, b@.len() as int) =~= Seq::<u8>::empty());
    assert(out@ + Seq::<u8>::empty() =~= out@);
    out
}

/// Relies on `String::from_utf8`: the bytes as text when they are valid
/// UTF-8, and nothing otherwise.
#[verifier::external_body]
fn utf8_string(b: Vec<u8>) -> (r: Option<String>)
    ensures
        match r {
            Some(t) => valid_utf8(b@) && t@ == decode_utf8(b@),
            None => !valid_utf8(b@),
        },
{
    String::from_utf8(b).ok()
}

/// The text of a status-message header value: percent-decoded and read as
/// UTF-8, or the value as it came where the decoded bytes are not UTF-8.
pub fn decode_message(v: &str) -> (r: String)
    ensures
        r@ == message_text(v@),
{
    let bytes = v.as_bytes();
    match utf8_string(percent_decode(bytes)) {
        Some(t) => t,
        None => String::from_str(v),
    }
}

/// `s` is the status that header block `h` carries.
pub open spec fn is_carried_status(s: Status, h: Metadata) -> bool {
    carried_code(h.entries@) == Some(s.code) && s.message@ == carried_message(h.entries@)
        && s.metadata.entries@ == h.entries@
}

/// Message of the error for a body that ended without a terminal status.
pub open spec fn missing_trailers_message() -> Seq<char> {
    "missing trailers"@
}

/// The terminal status that a header block carries: none without a
/// status-code header, else its code, its message and the block itself.
pub fn status_from_headers(h: &Metadata) -> (r: Option<Status>)
    ensures
        match r {
            None => carried_code(h.entries@) is None,
            Some(s) => is_carried_status(s, *h),
        },
{
    match h.get("grpc-status") {
        None => None,
        Some(v) => {
            let code = Code::from_text(v.as_str());
            let message = match h.get("grpc-message") {
                Some(m) => decode_message(m.as_str()),
                None => String::new(),
            };
            Some(Status { code, message, metadata: h.clone_all() })
        },
    }
}

/// Where an inbound sequence stands.
#[derive(Clone, Copy, Debug, PartialEq, Eq, Structural)]
pub enum StreamState {
    /// Frames may still be read from the body.
    Live,
    /// The sequence ended with an OK status.
    Finished,
    /// The sequence ended with an error.
    Failed,
}

/// The decoded messages of a response: its body read frame by frame, then
/// the terminal status of its trailers. Every error it yields carries the
/// response's header block, then the trailers where they hold the status.
#[derive(Debug)]
pub struct Streaming {
    pub headers: Metadata,
    pub body: Vec<u8>,
    pub pos: usize,
    pub encoded: bool,
    pub limit: Option<usize>,
    pub http_status: u16,
    pub trailers: Option<Metadata>,
    pub state: StreamState,
}

/// The terminal status code in optional trailers.
pub open spec fn trailer_code(t: Option<Metadata>) -> Option<Code> {
    match t {
        Some(m) => carried_code(m.entries@),
        None => None,
    }
}

/// `s` reports framing error `e` with metadata `h`.
pub open spec fn frame_error_with(s: Status, e: FrameError, http_status: u16, h: Seq<(String, String)>) -> bool {
    s.code == frame_error_code(e) && s.message@ == frame_error_message(e, http_status) && s.metadata.entries@ == h
}

/// `s` reports that trailers `t` hold no OK status; its metadata is the
/// header block `h` followed by the trailers.
pub open spec fn end_error_with(s: Status, t: Option<Metadata>, h: Seq<(String, String)>) -> bool {
    match trailer_code(t) {
        Some(_) => carried_code(t->0.entries@) == Some(s.code) && s.message@ == carried_message(t->0.entries@)
            && s.metadata.entries@ == h + t->0.entries@,
        None => s.code == Code::Internal && s.message@ == missing_trailers_message() && s.metadata.entries@ == h,
    }
}

/// Two optional metadata blocks hold the same entries.
pub open spec fn same_metadata(a: Option<Metadata>, b: Option<Metadata>) -> bool {
    match (a, b) {
        (None, None) => true,
        (Some(x), Some(y)) => x.entries@ == y.entries@,
        _ => false,
    }
}

impl Streaming {
    pub open spec fn wf(&self) -> bool {
        self.pos <= self.body@.len()
    }

    /// `self` and `other` read the same response.
    pub open spec fn same_source(&self, other: &Streaming) -> bool {
        &&& self.headers == other.headers
        &&& self.body == other.body
        &&& self.encoded == other.encoded
        &&& self.limit == other.limit
        &&& self.http_status == other.http_status
        &&& self.trailers == other.trailers
    }

    /// A sequence over a body that is read frame by frame.
    pub fn new_response(headers: Metadata, body: Vec<u8>, encoded: bool, limit: Option<usize>, http_status: u16, trailers: Option<Metadata>) -> (r: Streaming)
        ensures
            r.wf(),
            r.headers == headers,
            r.body == body,
            r.pos == 0,
            r.encoded == encoded,
            r.limit == limit,
            r.http_status == http_status,
            r.trailers == trailers,
            r.state == StreamState::Live,
    {
        Streaming { headers, body, pos: 0, encoded, limit, http_status, trailers, state: StreamState::Live }
    }

    /// A sequence that is already complete, with no message.
    pub fn new_empty(headers: Metadata) -> (r: Streaming)
        ensures
            r.wf(),
            r.headers == headers,
            r.body@.len() == 0,
            r.trailers is None,
            r.state == StreamState::Finished,
    {
        Streaming {
            headers,
            body: Vec::new(),
            pos: 0,
            encoded: false,
            limit: None,
            http_status: 200,
            trailers: None,
            state: StreamState::Finished,
        }
    }

    /// `s` with the header block put before its own metadata.
    fn with_headers(&self, s: Status) -> (r: Status)
        ensures
            r.code == s.code,
            r.message == s.message,
            r.metadata.entries@ == self.headers.entries@ + s.metadata.entries@,
            s.metadata.entries@.len() == 0 ==> r.metadata.entries@ == self.headers.entries@,
    {
        let mut m = self.headers.clone_all();
        let mut s = s;
        let ghost own = s.metadata.entries@;
        m.merge(s.metadata);
        s.metadata = m;
        assert(own.len() == 0 ==> self.headers.entries@ + own =~= self.headers.entries@);
        s
    }

    /// Pulls the next message: a frame of the body, or at the end of the
    /// body nothing when the trailers carry an OK status and an error when
    /// they carry another or none. After the end or an error it yields
    /// nothing.
    pub fn message(&mut self) -> (r: Result<Option<Frame>, Status>)
        requires
            old(self).wf(),
        ensures
            final(self).wf(),
            final(self).same_source(old(self)),
            !(r matches Ok(Some(_))) ==> final(self).pos == old(self).pos,
            (old(self).limit is Some && r is Ok && r->Ok_0 is Some) ==> r->Ok_0->Some_0.payload@.len() <= old(self).limit->Some_0,
            old(self).state != StreamState::Live ==> (r matches Ok(None) && *final(self) == *old(self)),
            old(self).state == StreamState::Live && old(self).pos < old(self).body@.len() ==> match step_at(
                old(self).body@, old(self).pos as int, old(self).encoded, old(self).limit) {
                Err(e) => r matches Err(s) && frame_error_with(s, e, old(self).http_status, old(self).headers.entries@)
                    && final(self).state == StreamState::Failed,
                Ok(None) => r matches Err(s)
                    && frame_error_with(s, FrameError::UnexpectedEof, old(self).http_status, old(self).headers.entries@)
                    && final(self).state == StreamState::Failed,
                Ok(Some(f)) => r matches Ok(Some(m)) && m.compressed == f.0 && m.payload@ == f.1
                    && final(self).pos == f.2 && final(self).state == StreamState::Live,
            },
            old(self).state == StreamState::Live && old(self).pos == old(self).body@.len() ==> if trailer_code(
                old(self).trailers) == Some(Code::Success) {
                r matches Ok(None) && final(self).state == StreamState::Finished
            } else {
                r matches Err(s) && end_error_with(s, old(self).trailers, old(self).headers.entries@)
                    && final(self).state == StreamState::Failed
            },
    {
        if self.state != StreamState::Live {
            return Ok(None);
        }
        if self.pos < self.body.len() {
            match decode_next(&self.body, self.pos, self.encoded, self.limit) {
                Err(e) => {
                    self.state = StreamState::Failed;
                    Err(self.with_headers(e.to_status(self.http_status)))
                },
                Ok(None) => {
                    self.state = StreamState::Failed;
                    Err(self.with_headers(FrameError::UnexpectedEof.to_status(self.http_status)))
                },
                Ok(Some((f, next))) => {
                    self.pos = next;
                    Ok(Some(f))
                },
            }
        } else {
            let end = match &self.trailers {
                Some(t) => status_from_headers(t),
                None => None,
            };
            match end {
                Some(s) => {
                    if s.code == Code::Success {
                        self.state = StreamState::Finished;
                        Ok(None)
                    } else {
                        self.state = StreamState::Failed;
                        Err(self.with_headers(s))
                    }
                },
                None => {
                    self.state = StreamState::Failed;
                    Err(self.with_headers(Status::new(Code::Internal, String::from_str("missing trailers"))))
                },
            }
        }
    }

    /// Pulls every message left: all frames of the rest of the body, in
    /// order, when the trailers then carry an OK status; else the error the
    /// pull that failed gives.
    pub fn collect(&mut self) -> (r: Result<Vec<Frame>, Status>)
        requires
            old(self).wf(),
        ensures
            final(self).wf(),
            final(self).same_source(old(self)),
            old(self).state != StreamState::Live ==> (r matches Ok(v) && v@.len() == 0),
            old(self).state == StreamState::Live ==> match parse_from(
                old(self).body@, old(self).pos as int, old(self).encoded, old(self).limit) {
                Err(e) => r matches Err(s) && frame_error_with(s, e, old(self).http_status, old(self).headers.entries@),
                Ok(fs) => if trailer_code(old(self).trailers) == Some(Code::Success) {
                    r matches Ok(v) && frames_view(v@) == fs
                } else {
                    r matches Err(s) && end_error_with(s, old(self).trailers, old(self).headers.entries@)
                },
            },
    {
        let mut out: Vec<Frame> = Vec::new();
        if self.state != StreamState::Live {
            return Ok(out);
        }
        let ghost start = *self;
        while self.state == StreamState::Live
            invariant
                self.wf(),
                start == *old(self),
                start.state == StreamState::Live,
                self.state != StreamState::Failed,
                self.same_source(&start),
                self.state == StreamState::Live ==> parse_from(start.body@, start.pos as int, start.encoded, start.limit)
                    == match parse_from(self.body@, self.pos as int, self.encoded, self.limit) {
                        Err(e) => Err(e),
                        Ok(rest) => Ok(frames_view(out@) + rest),
                    },
                self.state == StreamState::Finished ==>
                    parse_from(start.body@, start.pos as int, start.encoded, start.limit)
                        == Ok::<Seq<(bool, Seq<u8>)>, FrameError>(frames_view(out@))
                    && trailer_code(start.trailers) == Some(Code::Success),
            decreases 2 * (self.body@.len() - self.pos) + if self.state == StreamState::Live { 1int } else { 0int },
        {
            let ghost before = *self;
            let ghost seen = frames_view(out@);
            let m = self.message();
            proof {
                if before.pos < before.body@.len() {
                    match step_at(before.body@, before.pos as int, before.encoded, before.limit) {
                        Ok(Some(f)) => {
                            assert(f.2 > before.pos);
                        },
                        _ => {},
                    }
                } else {
                    assert(seen + Seq::<(bool, Seq<u8>)>::empty() =~= seen);
                }
            }
            match m {
                Err(s) => {
                    return Err(s);
                },
                Ok(None) => {},
                Ok(Some(f)) => {
                    let ghost item = (f.compressed, f.payload@);
                    out.push(f);
                    proof {
                        assert(frames_view(out@) =~= seen.push(item));
                        match parse_from(self.body@, self.pos as int, self.encoded, self.limit) {
                            Err(e) => {},
                            Ok(tail) => {
                                assert(seen + (seq![item] + tail) =~= frames_view(out@) + tail);
                            },
                        }
                    }
                },
            }
        }
        Ok(out)
    }

    /// Reads the sequence to its end and returns its trailers: the frames
    /// left are read and dropped, and a framing error or a non-OK terminal
    /// status is returned instead.
    pub fn trailers(&mut self) -> (r: Result<Option<Metadata>, Status>)
        requires
            old(self).wf(),
        ensures
            final(self).wf(),
            final(self).same_source(old(self)),
            old(self).state == StreamState::Failed ==> r matches Ok(None),
            old(self).state == StreamState::Finished ==> (r matches Ok(t) && same_metadata(t, old(self).trailers)),
            old(self).state == StreamState::Live ==> match parse_from(
                old(self).body@, old(self).pos as int, old(self).encoded, old(self).limit) {
                Err(e) => r matches Err(s) && frame_error_with(s, e, old(self).http_status, old(self).headers.entries@),
                Ok(_) => if trailer_code(old(self).trailers) == Some(Code::Success) {
                    r matches Ok(t) && same_metadata(t, old(self).trailers)
                } else {
                    r matches Err(s) && end_error_with(s, old(self).trailers, old(self).headers.entries@)
                },
            },
    {
        if self.state == StreamState::Failed {
            return Ok(None);
        }
        let ghost start = *self;
        while self.state == StreamState::Live
            invariant
                self.wf(),
                start == *old(self),
                start.state != StreamState::Failed,
                self.state != StreamState::Failed,
                self.same_source(&start),
                start.state == StreamState::Finished ==> self.state == StreamState::Finished,
                start.state == StreamState::Live && self.state == StreamState::Live ==> match parse_from(
                    start.body@, start.pos as int, start.encoded, start.limit) {
                    Err(e) => parse_from(self.body@, self.pos as int, self.encoded, self.limit) == Err::<Seq<(bool, Seq<u8>)>, FrameError>(e),
                    Ok(_) => parse_from(self.body@, self.pos as int, self.encoded, self.limit) is Ok,
                },
                start.state == StreamState::Live && self.state == StreamState::Finished ==>
                    parse_from(start.body@, start.pos as int, start.encoded, start.limit) is Ok
                    && trailer_code(start.trailers) == Some(Code::Success),
            decreases 2 * (self.body@.len() - self.pos) + if self.state == StreamState::Live { 1int } else { 0int },
        {
            let ghost before = *self;
            let m = self.message();
            proof {
                if before.pos < before.body@.len() {
                    match step_at(before.body@, before.pos as int, before.encoded, before.limit) {
                        Ok(Some(f)) => {
                            assert(f.2 > before.pos);
                            assert(self.pos > before.pos);
                        },
                        _ => {},
                    }
                }
            }
            match m {
                Err(s) => {
                    return Err(s);
                },
                Ok(_) => {},
            }
        }
        match &self.trailers {
            Some(t) => Ok(Some(t.clone_all())),
            None => Ok(None),
        }
    }
}

/// A live sequence, from the start of a body that frames `msgs` without
/// compression under its own ceiling, whose trailers carry an OK status:
/// `collect` gives exactly `msgs`, in order, uncompressed.
pub proof fn law_stream_round_trip(st: Streaming, msgs: Seq<Seq<u8>>)
    requires
        st.state == StreamState::Live,
        st.pos == 0,
        encode_spec(msgs, false, st.limit) == Ok::<Seq<u8>, FrameError>(st.body@),
        trailer_code(st.trailers) == Some(Code::Success),
    ensures
        parse_from(st.body@, st.pos as int, st.encoded, st.limit)
            == Ok::<Seq<(bool, Seq<u8>)>, FrameError>(msgs.map_values(|m: Seq<u8>| (false, m))),
{
    law_round_trip(msgs, st.encoded, st.limit);
}

/// A response: its header metadata and its payload.
#[derive(Debug)]
pub struct Response<T> {
    pub metadata: Metadata,
    pub message: T,
}

} // verus!
