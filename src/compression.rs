use vstd::prelude::*;
use vstd::string::*;
use crate::status::{lookup, Code, Metadata, Status};

verus! {

/// A compression algorithm that a message body may be encoded with.
#[derive(Clone, Copy, Debug, PartialEq, Eq, Structural)]
pub enum CompressionEncoding {
    Gzip,
    Deflate,
    Zstd,
}

/// The registered token of an encoding.
pub open spec fn token(e: CompressionEncoding) -> Seq<char> {
    match e {
        CompressionEncoding::Gzip => "gzip"@,
        CompressionEncoding::Deflate => "deflate"@,
        CompressionEncoding::Zstd => "zstd"@,
    }
}

/// Name of the header that carries the encoding of a message body.
pub open spec fn encoding_header() -> Seq<char> {
    "grpc-encoding"@
}

/// Name of the header that lists the encodings a peer accepts.
pub open spec fn accept_encoding_header() -> Seq<char> {
    "grpc-accept-encoding"@
}

impl CompressionEncoding {
    /// The registered token of this encoding.
    pub fn as_str(&self) -> (r: &'static str)
        ensures
            r@ == token(*self),
    {
        match self {
            CompressionEncoding::Gzip => "gzip",
            CompressionEncoding::Deflate => "deflate",
            CompressionEncoding::Zstd => "zstd",
        }
    }
}

/// The encodings a client accepts for responses, in the order they were
/// enabled, each at most once.
#[derive(Clone, Debug)]
pub struct EnabledCompressionEncodings {
    pub inner: Vec<CompressionEncoding>,
}

/// Every enabled token followed by a comma.
pub open spec fn joined_tokens(s: Seq<CompressionEncoding>) -> Seq<char>
    decreases s.len(),
{
    if s.len() == 0 {
        Seq::empty()
    } else {
        joined_tokens(s.drop_last()) + token(s.last()) + ","@
    }
}

/// The accept-encoding header value for a set of enabled encodings: none
/// when the set is empty, else each token and a comma, then the identity
/// token.
pub open spec fn accept_value(s: Seq<CompressionEncoding>) -> Option<Seq<char>> {
    if s.len() == 0 {
        None
    } else {
        Some(joined_tokens(s) + "identity"@)
    }
}

/// How a response's encoding header is read against the accepted set:
/// `Some(Some(e))` for an accepted algorithm, `Some(None)` for identity, and
/// `None` for an encoding that was never advertised.
pub open spec fn negotiated(v: Seq<char>, s: Seq<CompressionEncoding>) -> Option<Option<CompressionEncoding>> {
    if v == "gzip"@ && s.contains(CompressionEncoding::Gzip) {
        Some(Some(CompressionEncoding::Gzip))
    } else if v == "deflate"@ && s.contains(CompressionEncoding::Deflate) {
        Some(Some(CompressionEncoding::Deflate))
    } else if v == "zstd"@ && s.contains(CompressionEncoding::Zstd) {
        Some(Some(CompressionEncoding::Zstd))
    } else if v == "identity"@ {
        Some(None)
    } else {
        None
    }
}

/// The message of the error for an encoding that was never advertised.
pub open spec fn unsupported_message(v: Seq<char>) -> Seq<char> {
    "Content is compressed with `"@ + v + "` which isn't supported"@
}

impl EnabledCompressionEncodings {
    pub open spec fn view(&self) -> Seq<CompressionEncoding> {
        self.inner@
    }

    pub open spec fn wf(&self) -> bool {
        self.inner@.no_duplicates()
    }

    pub fn new() -> (r: Self)
        ensures
            r.wf(),
            r@ == Seq::<CompressionEncoding>::empty(),
    {
        EnabledCompressionEncodings { inner: Vec::new() }
    }

    pub fn is_enabled(&self, e: CompressionEncoding) -> (r: bool)
        ensures
            r == self@.contains(e),
    {
        let mut i: usize = 0;
        while i < self.inner.len()
            invariant
                i <= self.inner@.len(),
                forall|j: int| 0 <= j < i ==> self.inner@[j] != e,
            decreases self.inner@.len() - i,
        {
            if self.inner[i] == e {
                return true;
            }
            i = i + 1;
        }
        false
    }

    /// Adds `e` to the accepted set; enabling it again changes nothing.
    pub fn enable(&mut self, e: CompressionEncoding)
        ensures
            old(self).wf() ==> final(self).wf(),
            old(self)@.contains(e) ==> final(self)@ == old(self)@,
            !old(self)@.contains(e) ==> final(self)@ == old(self)@.push(e),
    {
        if !self.is_enabled(e) {
            self.inner.push(e);
            proof {
                if old(self).wf() {
                assert forall|a: int, b: int| 0 <= a < b < self.inner@.len() implies self.inner@[a] != self.inner@[b] by {
                    if b == self.inner@.len() - 1 {
                        assert(self.inner@[b] == e);
                        assert(old(self)@.contains(self.inner@[a]) || self.inner@[a] != e);
                    }
                }
                }
            }
        }
    }

    /// The value of the accept-encoding header, if any encoding is enabled.
    pub fn accept_encoding_value(&self) -> (r: Option<String>)
        ensures
            match r {
                Some(v) => accept_value(self@) == Some(v@),
                None => accept_value(self@) is None,
            },
    {
        if self.inner.len() == 0 {
            return None;
        }
        let mut out = String::new();
        let mut i: usize = 0;
        while i < self.inner.len()
            invariant
                i <= self.inner@.len(),
                out@ == joined_tokens(self.inner@.subrange(0, i as int)),
            decreases self.inner@.len() - i,
        {
            let tok = self.inner[i].as_str();
            out.append(tok);
            out.append(",");
            proof {
                let s = self.inner@.subrange(0, i + 1);
                assert(s.drop_last() =~= self.inner@.subrange(0, i as int));
                assert(joined_tokens(s) =~= out@);
            }
            i = i + 1;
        }
        out.append("identity");
        assert(self.inner@.subrange(0, self.inner@.len() as int) =~= self.inner@);
        Some(out)
    }

    /// Reads the encoding header of a response: the accepted algorithm it
    /// names, none for identity or no header, and an `Unimplemented` status
    /// listing the accepted encodings where the server named one that was
    /// never advertised.
    pub fn from_encoding_header(&self, headers: &Metadata) -> (r: Result<Option<CompressionEncoding>, Status>)
        ensures
            match lookup(headers.entries@, encoding_header()) {
                None => r == Ok::<Option<CompressionEncoding>, Status>(None),
                Some(v) => match negotiated(v@, self@) {
                    Some(e) => r == Ok::<Option<CompressionEncoding>, Status>(e),
                    None => r matches Err(s) && s.code == Code::Unimplemented
                        && s.message@ == unsupported_message(v@)
                        && s.metadata.entries@.len() == 1
                        && s.metadata.entries@[0].0@ == accept_encoding_header()
                        && s.metadata.entries@[0].1@ == match accept_value(self@) {
                            Some(a) => a,
                            None => "identity"@,
                        },
                },
            },
    {
        let value = match headers.get("grpc-encoding") {
            None => { return Ok(None); },
            Some(v) => v,
        };
        if value == String::from_str("gzip") && self.is_enabled(CompressionEncoding::Gzip) {
            return Ok(Some(CompressionEncoding::Gzip));
        }
        if value == String::from_str("deflate") && self.is_enabled(CompressionEncoding::Deflate) {
            return Ok(Some(CompressionEncoding::Deflate));
        }
        if value == String::from_str("zstd") && self.is_enabled(CompressionEncoding::Zstd) {
            return Ok(Some(CompressionEncoding::Zstd));
        }
        if value == String::from_str("identity") {
            return Ok(None);
        }
        let mut message = String::from_str("Content is compressed with `");
        message.append(value.as_str());
        message.append("` which isn't supported");
        let accepted = match self.accept_encoding_value() {
            Some(a) => a,
            None => String::from_str("identity"),
        };
        let mut status = Status::new(Code::Unimplemented, message);
        status.metadata.insert(String::from_str("grpc-accept-encoding"), accepted);
        Err(status)
    }
}

} // verus!
