//! Requests: the decoder from raw bytes to a typed request.
use vstd::prelude::*;
use vstd::string::StrSliceExecFns;
use vstd::string::StringExecFns;
use vstd::utf8::{decode_utf8, encode_utf8, valid_utf8};
use crate::errors::HttpError;
use crate::response::{bytes_content, freeze, Protocol};
use crate::text::{chars_of, lines_of, split_lines, split_whitespace, tokens, views};

verus! {

/// Relies on `std::str::from_utf8`: it succeeds exactly on valid UTF-8 and
/// then yields the decoded text.
#[verifier::external_body]
fn decode_text(b: &[u8]) -> (r: Result<&str, std::str::Utf8Error>)
    ensures
        match r {
            Ok(s) => valid_utf8(b@) && s@ == decode_utf8(b@),
            Err(_) => !valid_utf8(b@),
        },
{
    std::str::from_utf8(b)
}

/// The request methods this server knows.
#[derive(Debug, Clone, Copy, PartialEq, Eq, Structural)]
pub enum Method {
    Get,
    Put,
    Post,
}

/// A character folded to lower case if it is an ASCII capital letter.
pub open spec fn ascii_fold(c: char) -> int {
    if 65 <= (c as u32) <= 90 {
        (c as u32) + 32
    } else {
        (c as u32) as int
    }
}

/// `s` begins with `pat`, ASCII letters compared without regard to case.
pub open spec fn starts_with_ci(s: Seq<char>, pat: Seq<char>) -> bool {
    &&& pat.len() <= s.len()
    &&& forall|i: int| 0 <= i < pat.len() ==> ascii_fold(#[trigger] s[i]) == ascii_fold(pat[i])
}

/// What `str::to_uppercase` makes of a text: its Unicode upper-case mapping.
pub uninterp spec fn upper_of(s: Seq<char>) -> Seq<char>;

/// Relies on `str::to_uppercase`: the result depends on the characters alone.
#[verifier::external_body]
fn uppercase(s: &str) -> (r: String)
    ensures
        r@ == upper_of(s@),
{
    s.to_uppercase()
}

/// The method that an upper-cased token names.
pub open spec fn method_of_upper(up: Seq<char>) -> Option<Method> {
    if up == "GET"@ {
        Some(Method::Get)
    } else if up == "PUT"@ {
        Some(Method::Put)
    } else if up == "POST"@ {
        Some(Method::Post)
    } else {
        None
    }
}

/// The method that a token names once upper-cased (so, case-insensitively).
pub open spec fn method_of(tok: Seq<char>) -> Option<Method> {
    method_of_upper(upper_of(tok))
}

/// The protocol version that a token names, case-sensitively.
pub open spec fn protocol_of(tok: Seq<char>) -> Option<Protocol> {
    if tok == "HTTP/1.1"@ {
        Some(Protocol::Http1_1)
    } else if tok == "HTTP/1.0"@ {
        Some(Protocol::Http1_0)
    } else {
        None
    }
}

/// Whether `s` begins with `pat`, ignoring the case of ASCII letters.
pub fn starts_with_ignore_case(s: &str, pat: &str) -> (r: bool)
    ensures
        r == starts_with_ci(s@, pat@),
{
    let a = chars_of(s);
    let b = chars_of(pat);
    if b.len() > a.len() {
        return false;
    }
    let mut i: usize = 0;
    while i < b.len()
        invariant
            a@ == s@,
            b@ == pat@,
            b@.len() <= a@.len(),
            i <= b@.len(),
            forall|j: int| 0 <= j < i ==> ascii_fold(#[trigger] s@[j]) == ascii_fold(pat@[j]),
        decreases b@.len() - i,
    {
        let x = a[i] as u32;
        let y = b[i] as u32;
        let fx = if 65 <= x && x <= 90 {
            x + 32
        } else {
            x
        };
        let fy = if 65 <= y && y <= 90 {
            y + 32
        } else {
            y
        };
        if fx != fy {
            return false;
        }
        i = i + 1;
    }
    true
}

/// Whether two texts are equal character for character.
pub fn same_text(s: &str, t: &str) -> (r: bool)
    ensures
        r == (s@ == t@),
{
    let a = chars_of(s);
    let b = chars_of(t);
    if a.len() != b.len() {
        return false;
    }
    let mut i: usize = 0;
    while i < a.len()
        invariant
            a@ == s@,
            b@ == t@,
            a@.len() == b@.len(),
            i <= a@.len(),
            forall|j: int| 0 <= j < i ==> s@[j] == t@[j],
        decreases a@.len() - i,
    {
        if a[i] != b[i] {
            return false;
        }
        i = i + 1;
    }
    assert(s@ =~= t@);
    true
}

/// Reads a method token that is already upper-cased; it must match exactly.
pub fn method_from_upper(up: &str) -> (r: Result<Method, HttpError>)
    ensures
        match method_of_upper(up@) {
            Some(m) => r == Ok::<Method, HttpError>(m),
            None => r == Err::<Method, HttpError>(HttpError::ParseMethodError),
        },
{
    if same_text(up, "GET") {
        Ok(Method::Get)
    } else if same_text(up, "PUT") {
        Ok(Method::Put)
    } else if same_text(up, "POST") {
        Ok(Method::Post)
    } else {
        Err(HttpError::ParseMethodError)
    }
}

/// Reads a method token, case-insensitively: the token is upper-cased first.
pub fn parse_method(s: &str) -> (r: Result<Method, HttpError>)
    ensures
        match method_of(s@) {
            Some(m) => r == Ok::<Method, HttpError>(m),
            None => r == Err::<Method, HttpError>(HttpError::ParseMethodError),
        },
{
    let up = uppercase(s);
    method_from_upper(up.as_str())
}

/// Reads a protocol version token, which must match exactly.
pub fn parse_protocol(s: &str) -> (r: Result<Protocol, HttpError>)
    ensures
        match protocol_of(s@) {
            Some(p) => r == Ok::<Protocol, HttpError>(p),
            None => r == Err::<Protocol, HttpError>(HttpError::ParseProtocolError),
        },
{
    if same_text(s, "HTTP/1.1") {
        Ok(Protocol::Http1_1)
    } else if same_text(s, "HTTP/1.0") {
        Ok(Protocol::Http1_0)
    } else {
        Err(HttpError::ParseProtocolError)
    }
}

impl std::str::FromStr for Method {
    type Err = HttpError;

    fn from_str(s: &str) -> (r: Result<Self, Self::Err>)
        ensures
            match method_of(s@) {
                Some(m) => r == Ok::<Method, HttpError>(m),
                None => r == Err::<Method, HttpError>(HttpError::ParseMethodError),
            },
    {
        parse_method(s)
    }
}

impl std::str::FromStr for Protocol {
    type Err = HttpError;

    fn from_str(s: &str) -> (r: Result<Self, Self::Err>)
        ensures
            match protocol_of(s@) {
                Some(p) => r == Ok::<Protocol, HttpError>(p),
                None => r == Err::<Protocol, HttpError>(HttpError::ParseProtocolError),
            },
    {
        parse_protocol(s)
    }
}

/// What a `Request` stands for.
pub struct RequestView {
    pub method: Method,
    pub path: Seq<char>,
    pub protocol: Protocol,
    pub headers: Seq<Seq<char>>,
    pub body: Option<Seq<u8>>,
}

/// A decoded request. The path is kept verbatim; header lines are kept raw,
/// in order; the body is present only when text follows the blank line.
#[derive(Debug)]
pub struct Request {
    pub method: Method,
    pub path: String,
    pub protocol: Protocol,
    pub headers: Vec<String>,
    pub body: Option<bytes::Bytes>,
}

impl View for Request {
    type V = RequestView;

    open spec fn view(&self) -> RequestView {
        RequestView {
            method: self.method,
            path: self.path@,
            protocol: self.protocol,
            headers: views(self.headers@),
            body: match self.body {
                Some(b) => Some(bytes_content(b)),
                None => None,
            },
        }
    }
}

/// The lines concatenated, without separators.
pub open spec fn joined(ls: Seq<Seq<char>>) -> Seq<char>
    decreases ls.len(),
{
    if ls.len() == 0 {
        Seq::empty()
    } else {
        joined(ls.drop_last()) + ls.last()
    }
}

/// `k` is the first blank line after the start line.
pub open spec fn is_header_end(ls: Seq<Seq<char>>, k: int) -> bool {
    &&& 1 <= k < ls.len()
    &&& ls[k].len() == 0
    &&& forall|j: int| 1 <= j < k ==> #[trigger] ls[j].len() > 0
}

/// Whether a blank line ends the header block.
pub open spec fn has_header_end(ls: Seq<Seq<char>>) -> bool {
    exists|k: int| is_header_end(ls, k)
}

/// The index of the blank line that ends the header block.
pub open spec fn header_end(ls: Seq<Seq<char>>) -> int {
    choose|k: int| is_header_end(ls, k)
}

/// The body carried by the text after the blank line: none when it is empty.
pub open spec fn body_of(rest: Seq<char>) -> Option<Seq<u8>> {
    if rest.len() == 0 {
        None
    } else {
        Some(encode_utf8(rest))
    }
}

/// The request that a decoded text holds, or why it holds none.
pub open spec fn parse_text(t: Seq<char>) -> Result<RequestView, HttpError> {
    let ls = lines_of(t);
    if ls.len() == 0 {
        Err(HttpError::InvalidRequestFormat)
    } else {
        let toks = tokens(ls[0]);
        if toks.len() == 0 {
            Err(HttpError::InvalidRequestFormat)
        } else if method_of(toks[0]) is None {
            Err(HttpError::ParseMethodError)
        } else if toks.len() < 3 {
            Err(HttpError::InvalidRequestFormat)
        } else if protocol_of(toks[2]) is None {
            Err(HttpError::ParseProtocolError)
        } else if !has_header_end(ls) {
            Err(HttpError::InvalidRequestFormat)
        } else {
            let k = header_end(ls);
            Ok(
                RequestView {
                    method: method_of(toks[0])->0,
                    path: toks[1],
                    protocol: protocol_of(toks[2])->0,
                    headers: ls.subrange(1, k),
                    body: body_of(joined(ls.subrange(k + 1, ls.len() as int))),
                },
            )
        }
    }
}

/// What decoding `bytes` gives: a UTF-8 error, or what `parse_text` gives.
pub open spec fn parse_spec(bytes: Seq<u8>, r: Result<Request, HttpError>) -> bool {
    if !valid_utf8(bytes) {
        r matches Err(HttpError::UTF8Error(_))
    } else {
        match r {
            Ok(req) => parse_text(decode_utf8(bytes)) == Ok::<RequestView, HttpError>(req@),
            Err(e) => parse_text(decode_utf8(bytes)) == Err::<RequestView, HttpError>(e),
        }
    }
}

impl Request {
    /// Decodes a request from the bytes of one read.
    pub fn parse(bytes: &[u8]) -> (r: Result<Request, HttpError>)
        ensures
            parse_spec(bytes@, r),
    {
        let text = match decode_text(bytes) {
            Ok(t) => t,
            Err(e) => return Err(HttpError::UTF8Error(e)),
        };
        let ghost t = text@;
        let lines = split_lines(text);
        let ghost ls = lines_of(t);
        assert(views(lines@) == ls);
        if lines.len() == 0 {
            return Err(HttpError::InvalidRequestFormat);
        }
        assert(lines@[0]@ == ls[0]);
        let toks = split_whitespace(lines[0].as_str());
        let ghost ts = tokens(ls[0]);
        assert(views(toks@) == ts);
        if toks.len() == 0 {
            return Err(HttpError::InvalidRequestFormat);
        }
        assert(toks@[0]@ == ts[0]);
        let method = match parse_method(toks[0].as_str()) {
            Ok(m) => m,
            Err(e) => return Err(e),
        };
        if toks.len() < 3 {
            return Err(HttpError::InvalidRequestFormat);
        }
        assert(toks@[1]@ == ts[1]);
        assert(toks@[2]@ == ts[2]);
        let path = toks[1].clone();
        let protocol = match parse_protocol(toks[2].as_str()) {
            Ok(p) => p,
            Err(e) => return Err(e),
        };
        let mut headers: Vec<String> = Vec::new();
        let mut k: usize = 1;
        assert(views(headers@) =~= ls.subrange(1, 1));
        while k < lines.len() && !lines[k].as_str().is_empty()
            invariant
                views(lines@) == ls,
                1 <= k <= ls.len(),
                views(headers@) == ls.subrange(1, k as int),
                forall|j: int| 1 <= j < k ==> #[trigger] ls[j].len() > 0,
            decreases ls.len() - k,
        {
            assert(lines@[k as int]@ == ls[k as int]);
            let ghost before = headers@;
            headers.push(lines[k].clone());
            assert(views(headers@) =~= views(before).push(ls[k as int]));
            k = k + 1;
            assert(views(headers@) =~= ls.subrange(1, k as int));
        }
        if k == lines.len() {
            assert(!has_header_end(ls)) by {
                if exists|k2: int| is_header_end(ls, k2) {
                    let k2 = choose|k2: int| is_header_end(ls, k2);
                    assert(ls[k2].len() > 0);
                }
            }
            return Err(HttpError::InvalidRequestFormat);
        }
        assert(lines@[k as int]@ == ls[k as int]);
        assert(is_header_end(ls, k as int));
        assert(header_end(ls) == k) by {
            let k2 = header_end(ls);
            assert(is_header_end(ls, k2));
            if k2 < k {
                assert(ls[k2].len() > 0);
            } else if k2 > k {
                assert(ls[k as int].len() > 0);
            }
        }
        let mut rest = String::new();
        let mut j: usize = k + 1;
        assert(ls.subrange(k + 1, k + 1) =~= Seq::<Seq<char>>::empty());
        while j < lines.len()
            invariant
                views(lines@) == ls,
                k + 1 <= j <= ls.len(),
                rest@ == joined(ls.subrange(k + 1, j as int)),
            decreases ls.len() - j,
        {
            assert(lines@[j as int]@ == ls[j as int]);
            rest.append(lines[j].as_str());
            assert(ls.subrange(k + 1, j + 1).drop_last() =~= ls.subrange(k + 1, j as int));
            j = j + 1;
        }
        let body = if rest.as_str().is_empty() {
            None
        } else {
            Some(freeze(rest.as_str().as_bytes_vec()))
        };
        let req = Request { method, path, protocol, headers, body };
        assert(req@ == parse_text(t)->Ok_0);
        Ok(req)
    }
}

/// A start line with a known method, a path and a known protocol version.
pub open spec fn valid_start_line(l: Seq<char>) -> bool {
    let toks = tokens(l);
    &&& toks.len() >= 3
    &&& method_of(toks[0]) is Some
    &&& protocol_of(toks[2]) is Some
}

/// Input with no blank line after its start line decodes to no request at
/// all: `Request::parse` fails, with a format error once the input is text
/// whose start line is valid (otherwise with the error that the encoding or
/// the start line gives).
pub proof fn missing_terminator_is_format_error(bytes: Seq<u8>, r: Result<Request, HttpError>)
    requires
        parse_spec(bytes, r),
        !has_header_end(lines_of(decode_utf8(bytes))),
    ensures
        r is Err,
        valid_utf8(bytes) && (lines_of(decode_utf8(bytes)).len() == 0 || valid_start_line(
            lines_of(decode_utf8(bytes))[0],
        )) ==> r matches Err(HttpError::InvalidRequestFormat),
{
}

} // verus!
