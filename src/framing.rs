use vstd::prelude::*;
use vstd::string::*;
use crate::status::{decimal, decimal_string, Code, Status};

verus! {

/// Bytes before each message on the wire: a compression flag and a
/// big-endian 32-bit length.
pub const HEADER_SIZE: usize = 5;

/// The largest payload a frame header can describe.
pub const MAX_FRAME_LEN: usize = 0xffff_ffff;

/// Big-endian bytes of a 32-bit length.
pub open spec fn be32(n: u32) -> Seq<u8> {
    seq![(n >> 24u32) as u8, (n >> 16u32) as u8, (n >> 8u32) as u8, n as u8]
}

/// The length that four big-endian bytes hold.
pub open spec fn read_be32(a: u8, b: u8, c: u8, d: u8) -> u32 {
    ((a as u32) << 24u32) | ((b as u32) << 16u32) | ((c as u32) << 8u32) | (d as u32)
}

/// The flag byte of a frame.
pub open spec fn flag_byte(compressed: bool) -> u8 {
    if compressed { 1u8 } else { 0u8 }
}

/// One message framed: flag, length, payload.
pub open spec fn frame(compressed: bool, payload: Seq<u8>) -> Seq<u8> {
    seq![flag_byte(compressed)] + be32(payload.len() as u32) + payload
}

/// Each message framed, in order.
pub open spec fn frames(msgs: Seq<Seq<u8>>, compressed: bool) -> Seq<u8>
    decreases msgs.len(),
{
    if msgs.len() == 0 {
        Seq::empty()
    } else {
        frame(compressed, msgs[0]) + frames(msgs.drop_first(), compressed)
    }
}

/// Why a message could not be framed or a frame could not be read.
#[derive(Clone, Copy, Debug, PartialEq, Eq, Structural)]
pub enum FrameError {
    /// An outbound message is larger than the encoding ceiling.
    EncodedTooLarge { found: usize, limit: usize },
    /// An outbound message is larger than a frame header can describe.
    ExceedsFrameLength { found: usize },
    /// An inbound frame announces more bytes than the decoding ceiling.
    DecodedTooLarge { found: usize, limit: usize },
    /// A frame is flagged compressed but the response named no encoding.
    CompressedWithoutEncoding,
    /// A frame's flag byte is neither 0 nor 1.
    InvalidFlag { flag: u8 },
    /// The body ended inside a frame.
    UnexpectedEof,
}

/// The code of the status that reports a framing error.
pub open spec fn frame_error_code(e: FrameError) -> Code {
    match e {
        FrameError::EncodedTooLarge { .. } => Code::OutOfRange,
        FrameError::ExceedsFrameLength { .. } => Code::ResourceExhausted,
        FrameError::DecodedTooLarge { .. } => Code::OutOfRange,
        _ => Code::Internal,
    }
}

/// The message of the status that reports a framing error; `http_status`
/// is the status code of the response being read.
pub open spec fn frame_error_message(e: FrameError, http_status: u16) -> Seq<char> {
    match e {
        FrameError::EncodedTooLarge { found, limit } =>
            "Error, encoded message length too large: found "@ + decimal(found as nat)
                + " bytes, the limit is: "@ + decimal(limit as nat) + " bytes"@,
        FrameError::ExceedsFrameLength { found } =>
            "Cannot return body with more than 4GB of data but got "@ + decimal(found as nat) + " bytes"@,
        FrameError::DecodedTooLarge { found, limit } =>
            "Error, decoded message length too large: found "@ + decimal(found as nat)
                + " bytes, the limit is: "@ + decimal(limit as nat) + " bytes"@,
        FrameError::CompressedWithoutEncoding =>
            "protocol error: received message with compressed-flag but no grpc-encoding was specified"@,
        FrameError::InvalidFlag { flag } =>
            "protocol error: received message with invalid compression flag: "@ + decimal(flag as nat)
                + " (valid flags are 0 and 1) while receiving response with status: "@ + decimal(http_status as nat),
        FrameError::UnexpectedEof => "Unexpected EOF decoding stream."@,
    }
}

/// `s` reports framing error `e` and carries no metadata.
pub open spec fn reports_frame_error(s: Status, e: FrameError, http_status: u16) -> bool {
    s.code == frame_error_code(e) && s.message@ == frame_error_message(e, http_status)
        && s.metadata.entries@.len() == 0
}

impl FrameError {
    /// The status that reports this error.
    pub fn to_status(&self, http_status: u16) -> (r: Status)
        ensures
            reports_frame_error(r, *self, http_status),
    {
        match *self {
            FrameError::EncodedTooLarge { found, limit } => {
                let mut m = String::from_str("Error, encoded message length too large: found ");
                m.append(decimal_string(found as u64).as_str());
                m.append(" bytes, the limit is: ");
                m.append(decimal_string(limit as u64).as_str());
                m.append(" bytes");
                Status::new(Code::OutOfRange, m)
            },
            FrameError::ExceedsFrameLength { found } => {
                let mut m = String::from_str("Cannot return body with more than 4GB of data but got ");
                m.append(decimal_string(found as u64).as_str());
                m.append(" bytes");
                Status::new(Code::ResourceExhausted, m)
            },
            FrameError::DecodedTooLarge { found, limit } => {
                let mut m = String::from_str("Error, decoded message length too large: found ");
                m.append(decimal_string(found as u64).as_str());
                m.append(" bytes, the limit is: ");
                m.append(decimal_string(limit as u64).as_str());
                m.append(" bytes");
                Status::new(Code::OutOfRange, m)
            },
            FrameError::CompressedWithoutEncoding => Status::new(
                Code::Internal,
                String::from_str("protocol error: received message with compressed-flag but no grpc-encoding was specified"),
            ),
            FrameError::InvalidFlag { flag } => {
                let mut m = String::from_str("protocol error: received message with invalid compression flag: ");
                m.append(decimal_string(flag as u64).as_str());
                m.append(" (valid flags are 0 and 1) while receiving response with status: ");
                m.append(decimal_string(http_status as u64).as_str());
                Status::new(Code::Internal, m)
            },
            FrameError::UnexpectedEof => Status::new(Code::Internal, String::from_str("Unexpected EOF decoding stream.")),
        }
    }
}

/// Whether one outbound message may be framed under the ceiling.
pub open spec fn check_outbound(len: nat, limit: Option<usize>) -> Result<(), FrameError> {
    if limit is Some && len > limit->0 {
        Err(FrameError::EncodedTooLarge { found: len as usize, limit: limit->0 })
    } else if len > MAX_FRAME_LEN {
        Err(FrameError::ExceedsFrameLength { found: len as usize })
    } else {
        Ok(())
    }
}

/// The bytes of a whole outbound sequence, or the error of its first
/// message that cannot be framed.
pub open spec fn encode_spec(msgs: Seq<Seq<u8>>, compressed: bool, limit: Option<usize>) -> Result<Seq<u8>, FrameError>
    decreases msgs.len(),
{
    if msgs.len() == 0 {
        Ok(Seq::empty())
    } else {
        match check_outbound(msgs[0].len(), limit) {
            Err(e) => Err(e),
            Ok(_) => match encode_spec(msgs.drop_first(), compressed, limit) {
                Err(e) => Err(e),
                Ok(rest) => Ok(frame(compressed, msgs[0]) + rest),
            },
        }
    }
}

/// Reading one frame that starts at `pos`: `Ok(None)` while the bytes at
/// hand do not hold it whole, else its flag, payload and end.
pub open spec fn step_at(b: Seq<u8>, pos: int, encoded: bool, limit: Option<usize>) -> Result<Option<(bool, Seq<u8>, int)>, FrameError> {
    if b.len() - pos < HEADER_SIZE {
        Ok(None)
    } else if b[pos] > 1 {
        Err(FrameError::InvalidFlag { flag: b[pos] })
    } else if b[pos] == 1 && !encoded {
        Err(FrameError::CompressedWithoutEncoding)
    } else {
        let len = read_be32(b[pos + 1], b[pos + 2], b[pos + 3], b[pos + 4]) as int;
        if limit is Some && len > limit->0 {
            Err(FrameError::DecodedTooLarge { found: len as usize, limit: limit->0 })
        } else if b.len() - pos - HEADER_SIZE < len {
            Ok(None)
        } else {
            Ok(Some((b[pos] == 1, b.subrange(pos + 5, pos + 5 + len), pos + 5 + len)))
        }
    }
}

/// Every frame of a complete body from `pos` on, as flag and payload.
pub open spec fn parse_from(b: Seq<u8>, pos: int, encoded: bool, limit: Option<usize>) -> Result<Seq<(bool, Seq<u8>)>, FrameError>
    decreases b.len() - pos,
{
    if pos >= b.len() {
        Ok(Seq::empty())
    } else {
        match step_at(b, pos, encoded, limit) {
            Err(e) => Err(e),
            Ok(None) => Err(FrameError::UnexpectedEof),
            Ok(Some(f)) => if pos < f.2 {
                match parse_from(b, f.2, encoded, limit) {
                    Err(e) => Err(e),
                    Ok(rest) => Ok(seq![(f.0, f.1)] + rest),
                }
            } else {
                Err(FrameError::UnexpectedEof)
            },
        }
    }
}

/// A message read from the body, as the peer sent it.
#[derive(Debug)]
pub struct Frame {
    pub compressed: bool,
    pub payload: Vec<u8>,
}

/// Flag and payload of each frame.
pub open spec fn frames_view(v: Seq<Frame>) -> Seq<(bool, Seq<u8>)> {
    v.map_values(|f: Frame| (f.compressed, f.payload@))
}

proof fn lemma_be32(n: u32)
    ensures
        read_be32(be32(n)[0], be32(n)[1], be32(n)[2], be32(n)[3]) == n,
{
    assert(((((n >> 24u32) as u8) as u32) << 24u32) | ((((n >> 16u32) as u8) as u32) << 16u32)
        | ((((n >> 8u32) as u8) as u32) << 8u32) | ((n as u8) as u32) == n) by (bit_vector);
}

fn copy_range(b: &Vec<u8>, start: usize, end: usize) -> (r: Vec<u8>)
    requires
        start <= end <= b@.len(),
    ensures
        r@ == b@.subrange(start as int, end as int),
{
    let mut r: Vec<u8> = Vec::new();
    let mut i: usize = start;
    while i < end
        invariant
            start <= i <= end,
            end <= b@.len(),
            r@ == b@.subrange(start as int, i as int),
        decreases end - i,
    {
        r.push(b[i]);
        assert(r@ =~= b@.subrange(start as int, i + 1));
        i = i + 1;
    }
    r
}

/// Frames one message: flag, big-endian length and payload, or the
/// size-limit error that keeps it from being sent. The payload is taken as
/// it is: `compressed` only sets the flag, for a payload the caller has
/// already compressed.
pub fn encode_frame(payload: &Vec<u8>, compressed: bool, limit: Option<usize>) -> (r: Result<Vec<u8>, FrameError>)
    ensures
        match check_outbound(payload@.len(), limit) {
            Err(e) => r == Err::<Vec<u8>, FrameError>(e),
            Ok(_) => r matches Ok(b) && b@ == frame(compressed, payload@),
        },
{
    let len = payload.len();
    if let Some(l) = limit {
        if len > l {
            return Err(FrameError::EncodedTooLarge { found: len, limit: l });
        }
    }
    if len > MAX_FRAME_LEN {
        return Err(FrameError::ExceedsFrameLength { found: len });
    }
    let n = len as u32;
    let mut out: Vec<u8> = Vec::new();
    out.push(if compressed { 1u8 } else { 0u8 });
    out.push((n >> 24u32) as u8);
    out.push((n >> 16u32) as u8);
    out.push((n >> 8u32) as u8);
    out.push(n as u8);
    let mut i: usize = 0;
    while i < len
        invariant
            i <= len,
            len == payload@.len(),
            out@ == seq![flag_byte(compressed)] + be32(n) + payload@.subrange(0, i as int),
        decreases len - i,
    {
        out.push(payload[i]);
        assert(payload@.subrange(0, i + 1) =~= payload@.subrange(0, i as int).push(payload@[i as int]));
        assert(out@ =~= seq![flag_byte(compressed)] + be32(n) + payload@.subrange(0, i + 1));
        i = i + 1;
    }
    assert(payload@.subrange(0, len as int) =~= payload@);
    Ok(out)
}

/// Frames a whole outbound sequence in order; the first message over a
/// ceiling aborts it and no bytes are produced. `compressed` flags every
/// frame, for payloads the caller has already compressed.
pub fn encode_body(msgs: &Vec<Vec<u8>>, compressed: bool, limit: Option<usize>) -> (r: Result<Vec<u8>, FrameError>)
    ensures
        match encode_spec(msgs@.map_values(|m: Vec<u8>| m@), compressed, limit) {
            Err(e) => r == Err::<Vec<u8>, FrameError>(e),
            Ok(b) => r matches Ok(o) && o@ == b,
        },
{
    let ghost all = msgs@.map_values(|m: Vec<u8>| m@);
    let mut out: Vec<u8> = Vec::new();
    let mut i: usize = 0;
    assert(all.subrange(0, all.len() as int) =~= all);
    while i < msgs.len()
        invariant
            i <= msgs@.len(),
            all == msgs@.map_values(|m: Vec<u8>| m@),
            encode_spec(all, compressed, limit) == match encode_spec(all.subrange(i as int, all.len() as int), compressed, limit) {
                Err(e) => Err(e),
                Ok(rest) => Ok(out@ + rest),
            },
        decreases msgs@.len() - i,
    {
        let ghost rest = all.subrange(i as int, all.len() as int);
        assert(rest.drop_first() =~= all.subrange(i + 1, all.len() as int));
        assert(rest[0] == msgs@[i as int]@);
        let f = encode_frame(&msgs[i], compressed, limit);
        match f {
            Err(e) => {
                return Err(e);
            },
            Ok(bytes) => {
                let ghost before = out@;
                let mut bytes = bytes;
                out.append(&mut bytes);
                proof {
                    match encode_spec(all.subrange(i + 1, all.len() as int), compressed, limit) {
                        Err(e) => {},
                        Ok(tail) => {
                            assert(before + (frame(compressed, rest[0]) + tail) =~= out@ + tail);
                        },
                    }
                }
            },
        }
        i = i + 1;
    }
    assert(all.subrange(i as int, all.len() as int) =~= Seq::<Seq<u8>>::empty());
    assert(out@ + Seq::<u8>::empty() =~= out@);
    Ok(out)
}

/// Reads the frame that starts at `pos` in the bytes received so far:
/// nothing while it is not whole, else its flag, payload and end.
pub fn decode_next(buf: &Vec<u8>, pos: usize, encoded: bool, limit: Option<usize>) -> (r: Result<Option<(Frame, usize)>, FrameError>)
    requires
        pos <= buf@.len(),
    ensures
        match step_at(buf@, pos as int, encoded, limit) {
            Err(e) => r == Err::<Option<(Frame, usize)>, FrameError>(e),
            Ok(None) => r matches Ok(None),
            Ok(Some(f)) => r matches Ok(Some(g)) && g.0.compressed == f.0 && g.0.payload@ == f.1 && g.1 == f.2,
        },
{
    if buf.len() - pos < HEADER_SIZE {
        return Ok(None);
    }
    let flag = buf[pos];
    if flag > 1 {
        return Err(FrameError::InvalidFlag { flag });
    }
    if flag == 1 && !encoded {
        return Err(FrameError::CompressedWithoutEncoding);
    }
    let n: u32 = ((buf[pos + 1] as u32) << 24u32) | ((buf[pos + 2] as u32) << 16u32)
        | ((buf[pos + 3] as u32) << 8u32) | (buf[pos + 4] as u32);
    let len = n as usize;
    if let Some(l) = limit {
        if len > l {
            return Err(FrameError::DecodedTooLarge { found: len, limit: l });
        }
    }
    if buf.len() - pos - HEADER_SIZE < len {
        return Ok(None);
    }
    let payload = copy_range(buf, pos + 5, pos + 5 + len);
    Ok(Some((Frame { compressed: flag == 1, payload }, pos + 5 + len)))
}

/// Reads every frame of a complete body; bytes left over that do not make
/// a whole frame are an error.
pub fn decode_body(body: &Vec<u8>, encoded: bool, limit: Option<usize>) -> (r: Result<Vec<Frame>, FrameError>)
    ensures
        match parse_from(body@, 0, encoded, limit) {
            Err(e) => r == Err::<Vec<Frame>, FrameError>(e),
            Ok(fs) => r matches Ok(v) && frames_view(v@) == fs,
        },
{
    let mut out: Vec<Frame> = Vec::new();
    let mut pos: usize = 0;
    while pos < body.len()
        invariant
            pos <= body@.len(),
            parse_from(body@, 0, encoded, limit) == match parse_from(body@, pos as int, encoded, limit) {
                Err(e) => Err(e),
                Ok(rest) => Ok(frames_view(out@) + rest),
            },
        decreases body@.len() - pos,
    {
        match decode_next(body, pos, encoded, limit) {
            Err(e) => {
                return Err(e);
            },
            Ok(None) => {
                return Err(FrameError::UnexpectedEof);
            },
            Ok(Some((f, next))) => {
                let ghost before = frames_view(out@);
                let ghost item = (f.compressed, f.payload@);
                out.push(f);
                proof {
                    assert(frames_view(out@) =~= before.push(item));
                    match parse_from(body@, next as int, encoded, limit) {
                        Err(e) => {},
                        Ok(tail) => {
                            assert(before + (seq![item] + tail) =~= frames_view(out@) + tail);
                        },
                    }
                }
                pos = next;
            },
        }
    }
    assert(frames_view(out@) + Seq::<(bool, Seq<u8>)>::empty() =~= frames_view(out@));
    Ok(out)
}


proof fn lemma_parse_frames(p: Seq<u8>, msgs: Seq<Seq<u8>>, compressed: bool, encoded: bool, limit: Option<usize>)
    requires
        forall|i: int| 0 <= i < msgs.len() ==> check_outbound(#[trigger] msgs[i].len(), limit) is Ok,
        compressed ==> encoded,
    ensures
        parse_from(p + frames(msgs, compressed), p.len() as int, encoded, limit)
            == Ok::<Seq<(bool, Seq<u8>)>, FrameError>(msgs.map_values(|m: Seq<u8>| (compressed, m))),
    decreases msgs.len(),
{
    let b = p + frames(msgs, compressed);
    let pos = p.len() as int;
    if msgs.len() == 0 {
        assert(b =~= p);
        assert(msgs.map_values(|m: Seq<u8>| (compressed, m)) =~= Seq::<(bool, Seq<u8>)>::empty());
    } else {
        let m = msgs[0];
        let rest = msgs.drop_first();
        assert(check_outbound(msgs[0].len(), limit) is Ok);
        let n = m.len() as u32;
        let p2 = p + frame(compressed, m);
        assert(b =~= p2 + frames(rest, compressed));
        assert(b[pos] == flag_byte(compressed));
        assert(b[pos + 1] == be32(n)[0]);
        assert(b[pos + 2] == be32(n)[1]);
        assert(b[pos + 3] == be32(n)[2]);
        assert(b[pos + 4] == be32(n)[3]);
        lemma_be32(n);
        assert(b.subrange(pos + 5, pos + 5 + m.len()) =~= m);
        assert forall|i: int| 0 <= i < rest.len() implies check_outbound(#[trigger] rest[i].len(), limit) is Ok by {
            assert(rest[i] == msgs[i + 1]);
        }
        lemma_parse_frames(p2, rest, compressed, encoded, limit);
        assert(p2.len() == pos + 5 + m.len());
        assert(msgs.map_values(|m: Seq<u8>| (compressed, m))
            =~= seq![(compressed, m)] + rest.map_values(|m: Seq<u8>| (compressed, m)));
    }
}

proof fn lemma_encode_spec(msgs: Seq<Seq<u8>>, compressed: bool, limit: Option<usize>)
    ensures
        (forall|i: int| 0 <= i < msgs.len() ==> check_outbound(#[trigger] msgs[i].len(), limit) is Ok)
            ==> encode_spec(msgs, compressed, limit) == Ok::<Seq<u8>, FrameError>(frames(msgs, compressed)),
        (exists|i: int| 0 <= i < msgs.len() && check_outbound(#[trigger] msgs[i].len(), limit) is Err)
            ==> encode_spec(msgs, compressed, limit) is Err,
    decreases msgs.len(),
{
    if msgs.len() > 0 {
        let rest = msgs.drop_first();
        lemma_encode_spec(rest, compressed, limit);
        if forall|i: int| 0 <= i < msgs.len() ==> check_outbound(#[trigger] msgs[i].len(), limit) is Ok {
            assert(check_outbound(msgs[0].len(), limit) is Ok);
            assert forall|i: int| 0 <= i < rest.len() implies check_outbound(#[trigger] rest[i].len(), limit) is Ok by {
                assert(rest[i] == msgs[i + 1]);
            }
        }
        if exists|i: int| 0 <= i < msgs.len() && check_outbound(#[trigger] msgs[i].len(), limit) is Err {
            let i = choose|i: int| 0 <= i < msgs.len() && check_outbound(#[trigger] msgs[i].len(), limit) is Err;
            if i > 0 {
                assert(rest[i - 1] == msgs[i]);
            }
        }
    }
}

/// An outbound size-limit error: one that only framing a request gives.
pub open spec fn is_outbound_error(e: FrameError) -> bool {
    e is EncodedTooLarge || e is ExceedsFrameLength
}

/// Reading a body never gives an outbound size-limit error.
pub proof fn lemma_parse_error_inbound(b: Seq<u8>, pos: int, encoded: bool, limit: Option<usize>)
    ensures
        parse_from(b, pos, encoded, limit) matches Err(e) ==> !is_outbound_error(e),
        step_at(b, pos, encoded, limit) matches Err(e) ==> !is_outbound_error(e),
    decreases b.len() - pos,
{
    if pos < b.len() {
        if let Ok(Some(f)) = step_at(b, pos, encoded, limit) {
            if pos < f.2 {
                lemma_parse_error_inbound(b, f.2, encoded, limit);
            }
        }
    }
}

/// The status of an inbound error never reads as that of an outbound one.
pub proof fn lemma_inbound_status_differs(e: FrameError, o: FrameError, http_status: u16)
    requires
        !is_outbound_error(e),
        is_outbound_error(o),
    ensures
        frame_error_code(e) != frame_error_code(o) || frame_error_message(e, http_status) != frame_error_message(o, 0),
{
    if e is DecodedTooLarge && o is EncodedTooLarge {
        reveal_strlit("Error, decoded message length too large: found ");
        reveal_strlit("Error, encoded message length too large: found ");
        let a = frame_error_message(e, http_status);
        let c = frame_error_message(o, 0);
        assert(a[7] == 'd');
        assert(c[7] == 'e');
    }
}

/// Framing then reading back gives every message again, in order and
/// uncompressed, whenever framing succeeds and the reader has the
/// writer's ceiling (or none).
pub proof fn law_round_trip(msgs: Seq<Seq<u8>>, encoded: bool, limit: Option<usize>)
    ensures
        encode_spec(msgs, false, limit) matches Ok(b) ==> parse_from(b, 0, encoded, limit)
            == Ok::<Seq<(bool, Seq<u8>)>, FrameError>(msgs.map_values(|m: Seq<u8>| (false, m))),
        encode_spec(msgs, false, None) is Ok <==> (forall|i: int| 0 <= i < msgs.len() ==> #[trigger] msgs[i].len() <= MAX_FRAME_LEN),
{
    lemma_encode_spec(msgs, false, limit);
    lemma_encode_spec(msgs, false, None);
    if encode_spec(msgs, false, limit) is Ok {
        if exists|i: int| 0 <= i < msgs.len() && check_outbound(#[trigger] msgs[i].len(), limit) is Err {
        }
        lemma_parse_frames(Seq::empty(), msgs, false, encoded, limit);
        assert(Seq::<u8>::empty() + frames(msgs, false) =~= frames(msgs, false));
    }
    if !(forall|i: int| 0 <= i < msgs.len() ==> #[trigger] msgs[i].len() <= MAX_FRAME_LEN) {
        let i = choose|i: int| !(0 <= i < msgs.len() ==> #[trigger] msgs[i].len() <= MAX_FRAME_LEN);
        assert(check_outbound(msgs[i].len(), None) is Err);
    }
}

/// A message over the encoding ceiling keeps the whole sequence from being
/// framed, so no bytes of the call are produced.
pub proof fn law_encode_ceiling(msgs: Seq<Seq<u8>>, compressed: bool, limit: usize, i: int)
    requires
        0 <= i < msgs.len(),
        msgs[i].len() > limit,
    ensures
        encode_spec(msgs, compressed, Some(limit)) is Err,
{
    assert(check_outbound(msgs[i].len(), Some(limit)) is Err);
    lemma_encode_spec(msgs, compressed, Some(limit));
}

/// No frame read under a decoding ceiling is larger than the ceiling.
pub proof fn law_decode_ceiling(b: Seq<u8>, pos: int, encoded: bool, limit: usize)
    requires
        0 <= pos,
    ensures
        parse_from(b, pos, encoded, Some(limit)) matches Ok(fs)
            ==> forall|j: int| 0 <= j < fs.len() ==> (#[trigger] fs[j]).1.len() <= limit,
    decreases b.len() - pos,
{
    if pos < b.len() {
        match step_at(b, pos, encoded, Some(limit)) {
            Ok(Some(f)) => {
                if pos < f.2 {
                    law_decode_ceiling(b, f.2, encoded, limit);
                    if let Ok(rest) = parse_from(b, f.2, encoded, Some(limit)) {
                        let fs = seq![(f.0, f.1)] + rest;
                        assert forall|j: int| 0 <= j < fs.len() implies (#[trigger] fs[j]).1.len() <= limit by {
                            if j > 0 {
                                assert(fs[j] == rest[j - 1]);
                            }
                        }
                    }
                }
            },
            _ => {},
        }
    }
}

} // verus!
