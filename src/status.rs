use vstd::prelude::*;
use vstd::string::*;

verus! {

/// The terminal outcome code of a call.
#[derive(Clone, Copy, Debug, PartialEq, Eq, Structural)]
pub enum Code {
    Success,
    Cancelled,
    Unknown,
    InvalidArgument,
    DeadlineExceeded,
    NotFound,
    AlreadyExists,
    PermissionDenied,
    ResourceExhausted,
    FailedPrecondition,
    Aborted,
    OutOfRange,
    Unimplemented,
    Internal,
    Unavailable,
    DataLoss,
    Unauthenticated,
}

/// The number that stands for a code on the wire.
pub open spec fn code_number(c: Code) -> nat {
    match c {
        Code::Success => 0,
        Code::Cancelled => 1,
        Code::Unknown => 2,
        Code::InvalidArgument => 3,
        Code::DeadlineExceeded => 4,
        Code::NotFound => 5,
        Code::AlreadyExists => 6,
        Code::PermissionDenied => 7,
        Code::ResourceExhausted => 8,
        Code::FailedPrecondition => 9,
        Code::Aborted => 10,
        Code::OutOfRange => 11,
        Code::Unimplemented => 12,
        Code::Internal => 13,
        Code::Unavailable => 14,
        Code::DataLoss => 15,
        Code::Unauthenticated => 16,
    }
}

/// The decimal digit character of `d < 10`.
pub open spec fn digit_char(d: nat) -> char {
    ((d + 48) as u8) as char
}

/// Decimal text of a number, most significant digit first.
pub open spec fn decimal(n: nat) -> Seq<char>
    decreases n,
{
    if n < 10 {
        seq![digit_char(n)]
    } else {
        decimal(n / 10).push(digit_char(n % 10))
    }
}

/// The code that a status-code header value names: the decimal text of a
/// code's number, anything else reading as `Unknown`.
pub open spec fn code_of_text(s: Seq<char>) -> Code {
    if exists|c: Code| s == #[trigger] decimal(code_number(c)) {
        choose|c: Code| s == #[trigger] decimal(code_number(c))
    } else {
        Code::Unknown
    }
}

fn digit_value(c: char) -> (r: Option<u8>)
    ensures
        match r {
            Some(d) => d < 10 && c == digit_char(d as nat),
            None => forall|d: nat| d < 10 ==> c != digit_char(d),
        },
{
    if '0' <= c && c <= '9' {
        Some((c as u8) - 48)
    } else {
        None
    }
}

proof fn lemma_decimal_small(n: nat)
    requires
        n < 100,
    ensures
        n < 10 ==> decimal(n) == seq![digit_char(n)],
        n >= 10 ==> decimal(n) == seq![digit_char(n / 10), digit_char(n % 10)],
{
    reveal_with_fuel(decimal, 2);
    if n >= 10 {
        assert(decimal(n) =~= seq![digit_char(n / 10), digit_char(n % 10)]);
    }
}

proof fn lemma_code_text_injective(a: Code, b: Code)
    requires
        decimal(code_number(a)) == decimal(code_number(b)),
    ensures
        a == b,
{
    lemma_decimal_small(code_number(a));
    lemma_decimal_small(code_number(b));
    let sa = decimal(code_number(a));
    let sb = decimal(code_number(b));
    assert(sa.len() == sb.len());
    if code_number(a) >= 10 {
        assert(sa[1] == sb[1]);
        assert(sa[0] == sb[0]);
    } else {
        assert(sa[0] == sb[0]);
    }
}

/// The code with the given number.
pub open spec fn code_with_number(n: nat) -> Code {
    if n == 0 { Code::Success }
    else if n == 1 { Code::Cancelled }
    else if n == 2 { Code::Unknown }
    else if n == 3 { Code::InvalidArgument }
    else if n == 4 { Code::DeadlineExceeded }
    else if n == 5 { Code::NotFound }
    else if n == 6 { Code::AlreadyExists }
    else if n == 7 { Code::PermissionDenied }
    else if n == 8 { Code::ResourceExhausted }
    else if n == 9 { Code::FailedPrecondition }
    else if n == 10 { Code::Aborted }
    else if n == 11 { Code::OutOfRange }
    else if n == 12 { Code::Unimplemented }
    else if n == 13 { Code::Internal }
    else if n == 14 { Code::Unavailable }
    else if n == 15 { Code::DataLoss }
    else { Code::Unauthenticated }
}

fn code_from_number(n: u8) -> (r: Code)
    requires
        n <= 16,
    ensures
        r == code_with_number(n as nat),
        code_number(r) == n,
{
    match n {
        0 => Code::Success,
        1 => Code::Cancelled,
        2 => Code::Unknown,
        3 => Code::InvalidArgument,
        4 => Code::DeadlineExceeded,
        5 => Code::NotFound,
        6 => Code::AlreadyExists,
        7 => Code::PermissionDenied,
        8 => Code::ResourceExhausted,
        9 => Code::FailedPrecondition,
        10 => Code::Aborted,
        11 => Code::OutOfRange,
        12 => Code::Unimplemented,
        13 => Code::Internal,
        14 => Code::Unavailable,
        15 => Code::DataLoss,
        _ => Code::Unauthenticated,
    }
}

impl Code {
    /// Reads a status-code header value.
    pub fn from_text(s: &str) -> (r: Code)
        ensures
            r == code_of_text(s@),
    {
        let len = s.unicode_len();
        let mut n: Option<u8> = None;
        if len == 1 {
            n = digit_value(s.get_char(0));
        } else if len == 2 {
            let hi = digit_value(s.get_char(0));
            let lo = digit_value(s.get_char(1));
            if let (Some(h), Some(l)) = (hi, lo) {
                if h == 1 && l <= 6 {
                    n = Some(10 + l);
                }
            }
        }
        match n {
            Some(v) => {
                let c = code_from_number(v);
                proof {
                    lemma_decimal_small(v as nat);
                    assert(s@ =~= decimal(code_number(c)));
                    assert forall|d: Code| s@ == #[trigger] decimal(code_number(d)) implies d == c by {
                        lemma_code_text_injective(c, d);
                    }
                }
                c
            },
            None => {
                proof {
                    assert forall|d: Code| s@ != #[trigger] decimal(code_number(d)) by {
                        lemma_decimal_small(code_number(d));
                        if s@ == decimal(code_number(d)) {
                            let k = code_number(d);
                            if k >= 10 {
                                assert(s@[0] == digit_char(1));
                                assert(s@[1] == digit_char(k % 10));
                            } else {
                                assert(s@[0] == digit_char(k));
                            }
                        }
                    }
                }
                Code::Unknown
            },
        }
    }
}

fn digit_str(d: u64) -> (r: &'static str)
    requires
        d < 10,
    ensures
        r@ == seq![digit_char(d as nat)],
{
    proof {
        reveal_strlit("0"); reveal_strlit("1"); reveal_strlit("2"); reveal_strlit("3");
        reveal_strlit("4"); reveal_strlit("5"); reveal_strlit("6"); reveal_strlit("7");
        reveal_strlit("8"); reveal_strlit("9");
    }
    let r = match d {
        0 => "0",
        1 => "1",
        2 => "2",
        3 => "3",
        4 => "4",
        5 => "5",
        6 => "6",
        7 => "7",
        8 => "8",
        _ => "9",
    };
    assert(r@ =~= seq![digit_char(d as nat)]);
    r
}

/// Decimal text of `n`.
pub fn decimal_string(n: u64) -> (r: String)
    ensures
        r@ == decimal(n as nat),
    decreases n,
{
    if n < 10 {
        String::from_str(digit_str(n))
    } else {
        let mut s = decimal_string(n / 10);
        s.append(digit_str(n % 10));
        s
    }
}

/// Header or trailer metadata: name and value pairs in the order received.
#[derive(Clone, Debug)]
pub struct Metadata {
    pub entries: Vec<(String, String)>,
}

/// The value of the first entry named `name`.
pub open spec fn lookup(entries: Seq<(String, String)>, name: Seq<char>) -> Option<String>
    decreases entries.len(),
{
    if entries.len() == 0 {
        None
    } else if entries[0].0@ == name {
        Some(entries[0].1)
    } else {
        lookup(entries.drop_first(), name)
    }
}

impl Metadata {
    /// Names and values as text.
    pub open spec fn pairs(&self) -> Seq<(Seq<char>, Seq<char>)> {
        self.entries@.map_values(|e: (String, String)| (e.0@, e.1@))
    }

    pub fn new() -> (r: Metadata)
        ensures
            r.entries@ == Seq::<(String, String)>::empty(),
    {
        Metadata { entries: Vec::new() }
    }

    /// Adds one entry after the present ones.
    pub fn insert(&mut self, name: String, value: String)
        ensures
            final(self).entries@ == old(self).entries@.push((name, value)),
    {
        self.entries.push((name, value));
    }

    /// Adds every entry of `other` after the present ones.
    pub fn merge(&mut self, other: Metadata)
        ensures
            final(self).entries@ == old(self).entries@ + other.entries@,
    {
        let mut other = other;
        self.entries.append(&mut other.entries);
    }

    /// The value of the first entry named `name`.
    pub fn get(&self, name: &str) -> (r: Option<String>)
        ensures
            r == lookup(self.entries@, name@),
    {
        let key = String::from_str(name);
        let mut i: usize = 0;
        assert(self.entries@.subrange(0, self.entries@.len() as int) =~= self.entries@);
        while i < self.entries.len()
            invariant
                i <= self.entries@.len(),
                key@ == name@,
                lookup(self.entries@, name@) == lookup(self.entries@.subrange(i as int, self.entries@.len() as int), name@),
            decreases self.entries@.len() - i,
        {
            let rest = Ghost(self.entries@.subrange(i as int, self.entries@.len() as int));
            if self.entries[i].0 == key {
                return Some(self.entries[i].1.clone());
            }
            assert(rest@.drop_first() =~= self.entries@.subrange(i + 1, self.entries@.len() as int));
            i = i + 1;
        }
        None
    }

    pub fn clone_all(&self) -> (r: Metadata)
        ensures
            r.entries@ == self.entries@,
    {
        let mut entries: Vec<(String, String)> = Vec::new();
        let mut i: usize = 0;
        while i < self.entries.len()
            invariant
                i <= self.entries@.len(),
                entries@ == self.entries@.subrange(0, i as int),
            decreases self.entries@.len() - i,
        {
            let e = (self.entries[i].0.clone(), self.entries[i].1.clone());
            entries.push(e);
            assert(entries@ =~= self.entries@.subrange(0, i + 1));
            i = i + 1;
        }
        assert(entries@ =~= self.entries@);
        Metadata { entries }
    }
}

/// The terminal outcome of a call: a code, a message and metadata.
#[derive(Debug)]
pub struct Status {
    pub code: Code,
    pub message: String,
    pub metadata: Metadata,
}

impl Status {
    pub fn new(code: Code, message: String) -> (r: Status)
        ensures
            r.code == code,
            r.message == message,
            r.metadata.entries@.len() == 0,
    {
        Status { code, message, metadata: Metadata::new() }
    }
}

} // verus!
