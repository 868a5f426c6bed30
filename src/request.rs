use vstd::prelude::*;
use vstd::string::*;
use crate::status::Metadata;

verus! {

/// Where calls go: scheme, authority and an optional base path that is put
/// before each call path.
#[derive(Clone, Debug)]
pub struct Origin {
    pub scheme: Option<String>,
    pub authority: Option<String>,
    pub base_path: Option<String>,
}

impl Origin {
    /// An origin with no scheme, authority or base path.
    pub fn empty() -> (r: Origin)
        ensures
            r.scheme is None,
            r.authority is None,
            r.base_path is None,
    {
        Origin { scheme: None, authority: None, base_path: None }
    }
}

/// What http's path-and-query parser keeps of a text, or none where it
/// refuses it.
pub uninterp spec fn parsed_path(s: Seq<char>) -> Option<Seq<char>>;

/// A character that a path may hold as it is: a letter, a digit, or one
/// of `/ . - _ ~`.
pub open spec fn plain_path_char(c: char) -> bool {
    ('a' <= c && c <= 'z') || ('A' <= c && c <= 'Z') || ('0' <= c && c <= '9')
        || c == '/' || c == '.' || c == '-' || c == '_' || c == '~'
}

/// The longest path and query http accepts.
pub const MAX_PATH_LEN: usize = 65534;

/// A path that starts with `/`, fits http's length bound, and holds only
/// plain characters: no query, fragment or escape.
pub open spec fn plain_path(s: Seq<char>) -> bool {
    0 < s.len() <= MAX_PATH_LEN && s[0] == '/' && forall|i: int| 0 <= i < s.len() ==> plain_path_char(#[trigger] s[i])
}

/// Relies on `http::uri::PathAndQuery`'s `FromStr` and `as_str`: whether
/// the text is a valid path and query, and the text the parsed value holds.
/// A plain path is accepted and kept whole: its bytes are all of the
/// scanner's valid class, with no `?` or `#` to split or cut it.
#[verifier::external_body]
fn parse_path_and_query(s: &str) -> (r: Option<String>)
    ensures
        match r {
            Some(p) => parsed_path(s@) == Some(p@),
            None => parsed_path(s@) is None,
        },
        plain_path(s@) ==> (r is Some && r->Some_0@ == s@),
{
    match s.parse::<http::uri::PathAndQuery>() {
        Ok(p) => Some(p.as_str().to_string()),
        Err(_) => None,
    }
}

/// The call path put after the origin's base path, when that is present
/// and not the root, by plain concatenation.
pub open spec fn joined_path(base: Option<String>, path: Seq<char>) -> Seq<char> {
    match base {
        Some(b) => if b@ != "/"@ { b@ + path } else { path },
        None => path,
    }
}

/// Joining a plain base path other than the root and a plain call path
/// gives their concatenation, itself plain when it fits http's bound, so
/// the target is exactly that text.
pub proof fn law_plain_join(base: Seq<char>, path: Seq<char>)
    requires
        plain_path(base),
        plain_path(path),
        base.len() + path.len() <= MAX_PATH_LEN,
    ensures
        plain_path(base + path),
{
    let j = base + path;
    assert forall|i: int| 0 <= i < j.len() implies plain_path_char(#[trigger] j[i]) by {
        if i < base.len() {
            assert(j[i] == base[i]);
        } else {
            assert(j[i] == path[i - base.len()]);
        }
    }
}

/// A call's full wire path, checked once when it is made: only
/// `Origin::target` makes one, so its path is always one that http's parser
/// accepted and kept as it is.
#[derive(Debug)]
pub struct CallTarget {
    path: String,
}

impl CallTarget {
    /// The path as text.
    pub closed spec fn view(&self) -> Seq<char> {
        self.path@
    }

    pub fn path(&self) -> (r: &String)
        ensures
            r@ == self@,
    {
        &self.path
    }
}

/// The full path of a call could not be formed: a defect of the origin or
/// of the call path, not an outcome of the call.
#[derive(Clone, Copy, Debug, PartialEq, Eq, Structural)]
pub struct InvalidPath;

impl Origin {
    /// The wire target of `path` (of the form `/{service}/{method}`) under
    /// this origin.
    pub fn target(&self, path: &str) -> (r: Result<CallTarget, InvalidPath>)
        ensures
            match parsed_path(joined_path(self.base_path, path@)) {
                Some(p) => r matches Ok(t) && t@ == p,
                None => r == Err::<CallTarget, InvalidPath>(InvalidPath),
            },
            plain_path(joined_path(self.base_path, path@)) ==> (r is Ok && r->Ok_0@ == joined_path(self.base_path, path@)),
    {
        let mut full = String::new();
        match &self.base_path {
            Some(b) => {
                if *b != String::from_str("/") {
                    full.append(b.as_str());
                }
            },
            None => {},
        }
        full.append(path);
        assert(full@ == joined_path(self.base_path, path@));
        match parse_path_and_query(full.as_str()) {
            Some(p) => Ok(CallTarget { path: p }),
            None => Err(InvalidPath),
        }
    }
}

/// The HTTP version a request is sent with.
#[derive(Clone, Copy, Debug, PartialEq, Eq, Structural)]
pub enum HttpVersion {
    Http11,
    Http2,
}

/// An outbound request as the transport sends it.
#[derive(Debug)]
pub struct HttpRequest {
    pub method: String,
    pub version: HttpVersion,
    pub scheme: Option<String>,
    pub authority: Option<String>,
    pub path: String,
    pub headers: Metadata,
    pub body: Vec<u8>,
}

/// An inbound response as the transport received it: its status code,
/// headers, the bytes of its body and its trailers.
#[derive(Debug)]
pub struct HttpResponse {
    pub status: u16,
    pub headers: Metadata,
    pub body: Vec<u8>,
    pub trailers: Option<Metadata>,
}

/// A failure of the transport itself.
#[derive(Debug)]
pub struct TransportError {
    pub message: String,
}

} // verus!
