//! Responses: a builder value and its byte-exact wire encoding.
use vstd::prelude::*;
use vstd::string::{StrSliceExecFns, StringExecFns};
use vstd::utf8::encode_utf8;

verus! {

/// `bytes::Bytes`, the shared immutable buffer that carries encoded
/// responses and request bodies; opaque here.
#[verifier::external_type_specification]
#[verifier::external_body]
pub struct ExBytes(bytes::Bytes);

/// The bytes that a shared `Bytes` buffer holds.
pub uninterp spec fn bytes_content(b: bytes::Bytes) -> Seq<u8>;

/// Relies on `bytes::Bytes::from(Vec<u8>)`: the frozen buffer holds the
/// vector's bytes, in order.
#[verifier::external_body]
pub(crate) fn freeze(v: Vec<u8>) -> (r: bytes::Bytes)
    ensures
        bytes_content(r) == v@,
{
    bytes::Bytes::from(v)
}

/// The protocol version of a message.
#[derive(Debug, Clone, Copy, PartialEq, Eq, Structural)]
pub enum Protocol {
    Http1_1,
    Http1_0,
}

/// The status codes this server answers with.
#[derive(Debug, Clone, Copy, PartialEq, Eq, Structural)]
pub enum StatusCode {
    OK,
    NotFound,
    Created,
}

/// A response header.
#[derive(Debug)]
pub enum Header {
    ContentType(String),
    ContentLength(usize),
}

/// What a `Header` stands for.
pub enum HeaderView {
    ContentType(Seq<char>),
    ContentLength(nat),
}

impl View for Header {
    type V = HeaderView;

    open spec fn view(&self) -> HeaderView {
        match self {
            Header::ContentType(s) => HeaderView::ContentType(s@),
            Header::ContentLength(n) => HeaderView::ContentLength(*n as nat),
        }
    }
}

/// What a `Response` stands for.
pub struct ResponseView {
    pub protocol: Protocol,
    pub status: StatusCode,
    pub headers: Seq<HeaderView>,
    pub body: Option<Seq<u8>>,
}

/// A response under construction: protocol, status, headers in wire order,
/// and an optional body.
#[derive(Debug)]
pub struct Response {
    protocol: Protocol,
    status: StatusCode,
    headers: Vec<Header>,
    body: Option<Vec<u8>>,
}

impl View for Response {
    type V = ResponseView;

    closed spec fn view(&self) -> ResponseView {
        ResponseView {
            protocol: self.protocol,
            status: self.status,
            headers: self.headers@.map_values(|h: Header| h@),
            body: match self.body {
                Some(b) => Some(b@),
                None => None,
            },
        }
    }
}

/// The default response: HTTP/1.1, 200 OK, no headers, no body.
pub open spec fn default_view() -> ResponseView {
    ResponseView {
        protocol: Protocol::Http1_1,
        status: StatusCode::OK,
        headers: Seq::empty(),
        body: None,
    }
}

/// The literal that names a protocol version on the wire.
pub open spec fn protocol_text(p: Protocol) -> Seq<char> {
    match p {
        Protocol::Http1_1 => "HTTP/1.1"@,
        Protocol::Http1_0 => "HTTP/1.0"@,
    }
}

/// A status code with its reason phrase.
pub open spec fn status_text(s: StatusCode) -> Seq<char> {
    match s {
        StatusCode::OK => "200 OK"@,
        StatusCode::NotFound => "404 Not Found"@,
        StatusCode::Created => "201 Created"@,
    }
}

/// The decimal digit for a value below ten.
pub open spec fn digit_char(d: nat) -> char {
    if d == 0 {
        '0'
    } else if d == 1 {
        '1'
    } else if d == 2 {
        '2'
    } else if d == 3 {
        '3'
    } else if d == 4 {
        '4'
    } else if d == 5 {
        '5'
    } else if d == 6 {
        '6'
    } else if d == 7 {
        '7'
    } else if d == 8 {
        '8'
    } else {
        '9'
    }
}

/// The decimal notation of a number, without leading zeros.
pub open spec fn decimal(n: nat) -> Seq<char>
    decreases n,
{
    if n < 10 {
        seq![digit_char(n)]
    } else {
        decimal(n / 10).push(digit_char(n % 10))
    }
}

/// One header as it stands on the wire, without its line end.
pub open spec fn header_line(h: HeaderView) -> Seq<char> {
    match h {
        HeaderView::ContentType(v) => "Content-Type: "@ + v,
        HeaderView::ContentLength(n) => "Content-Length: "@ + decimal(n),
    }
}

/// The header lines, each ended by CRLF, in order.
pub open spec fn header_block(hs: Seq<HeaderView>) -> Seq<char>
    decreases hs.len(),
{
    if hs.len() == 0 {
        Seq::empty()
    } else {
        header_block(hs.drop_last()) + header_line(hs.last()) + "\r\n"@
    }
}

/// Status line, header lines and the blank line that ends the head.
pub open spec fn head_text(r: ResponseView) -> Seq<char> {
    protocol_text(r.protocol) + " "@ + status_text(r.status) + "\r\n"@ + header_block(r.headers)
        + "\r\n"@
}

/// The bytes that encode a response: its head in UTF-8, then the body if any.
pub open spec fn wire(r: ResponseView) -> Seq<u8> {
    encode_utf8(head_text(r)) + match r.body {
        Some(b) => b,
        None => Seq::empty(),
    }
}

/// The one-character text of a decimal digit.
fn digit_str(d: usize) -> (r: &'static str)
    requires
        d < 10,
    ensures
        r@ == seq![digit_char(d as nat)],
{
    proof {
        reveal_strlit("0");
        reveal_strlit("1");
        reveal_strlit("2");
        reveal_strlit("3");
        reveal_strlit("4");
        reveal_strlit("5");
        reveal_strlit("6");
        reveal_strlit("7");
        reveal_strlit("8");
        reveal_strlit("9");
    }
    if d == 0 {
        "0"
    } else if d == 1 {
        "1"
    } else if d == 2 {
        "2"
    } else if d == 3 {
        "3"
    } else if d == 4 {
        "4"
    } else if d == 5 {
        "5"
    } else if d == 6 {
        "6"
    } else if d == 7 {
        "7"
    } else if d == 8 {
        "8"
    } else {
        "9"
    }
}

/// Appends the decimal notation of `n`.
fn push_decimal(s: &mut String, n: usize)
    ensures
        final(s)@ == old(s)@ + decimal(n as nat),
    decreases n,
{
    if n >= 10 {
        push_decimal(s, n / 10);
    }
    s.append(digit_str(n % 10));
    assert(final(s)@ =~= old(s)@ + decimal(n as nat));
}

/// Appends the bytes of `b`.
pub(crate) fn append_bytes(out: &mut Vec<u8>, b: &[u8])
    ensures
        final(out)@ == old(out)@ + b@,
{
    let mut i: usize = 0;
    while i < b.len()
        invariant
            i <= b@.len(),
            out@ == old(out)@ + b@.take(i as int),
        decreases b@.len() - i,
    {
        out.push(b[i]);
        i = i + 1;
        assert(out@ =~= old(out)@ + b@.take(i as int));
    }
    assert(b@.take(i as int) =~= b@);
}

impl Response {
    /// A fresh response: HTTP/1.1, 200 OK, no headers, no body.
    pub fn new() -> (r: Self)
        ensures
            r@ == default_view(),
    {
        Response::default()
    }

    /// Sets the status code.
    pub fn status(&mut self, status: StatusCode)
        ensures
            final(self)@ == (ResponseView { status, ..old(self)@ }),
    {
        self.status = status;
    }

    /// Appends a header; headers go out in the order they were added.
    pub fn header(&mut self, header: Header)
        ensures
            final(self)@ == (ResponseView { headers: old(self)@.headers.push(header@), ..old(self)@ }),
    {
        let ghost h = header;
        self.headers.push(header);
        assert(self.headers@.map_values(|x: Header| x@) =~= old(self).headers@.map_values(
            |x: Header| x@,
        ).push(h@));
    }

    /// Sets the body to a copy of `body`.
    pub fn body(&mut self, body: &[u8])
        ensures
            final(self)@ == (ResponseView { body: Some(body@), ..old(self)@ }),
    {
        let mut b: Vec<u8> = Vec::new();
        append_bytes(&mut b, body);
        assert(b@ =~= body@);
        self.body = Some(b);
    }

    /// Appends a `Content-Type` header.
    pub fn content_type(&mut self, content_type: &str)
        ensures
            final(self)@ == (ResponseView {
                headers: old(self)@.headers.push(HeaderView::ContentType(content_type@)),
                ..old(self)@
            }),
    {
        self.header(Header::ContentType(content_type.to_owned()));
    }

    /// Appends a `Content-Length` header; nothing checks it against the body.
    pub fn content_len(&mut self, len: usize)
        ensures
            final(self)@ == (ResponseView {
                headers: old(self)@.headers.push(HeaderView::ContentLength(len as nat)),
                ..old(self)@
            }),
    {
        self.header(Header::ContentLength(len));
    }

    /// The wire bytes of this response (see `wire`).
    pub fn encode(&self) -> (r: Vec<u8>)
        ensures
            r@ == wire(self@),
    {
        let mut head = String::new();
        let protocol: &str = match self.protocol {
            Protocol::Http1_1 => "HTTP/1.1",
            Protocol::Http1_0 => "HTTP/1.0",
        };
        let status: &str = match self.status {
            StatusCode::OK => "200 OK",
            StatusCode::NotFound => "404 Not Found",
            StatusCode::Created => "201 Created",
        };
        head.append(protocol);
        head.append(" ");
        head.append(status);
        head.append("\r\n");
        let ghost start = head@;
        let ghost hs = self@.headers;
        let mut i: usize = 0;
        assert(hs.take(0) =~= Seq::<HeaderView>::empty());
        assert(start + header_block(hs.take(0)) =~= start);
        while i < self.headers.len()
            invariant
                hs == self@.headers,
                hs == self.headers@.map_values(|x: Header| x@),
                i <= self.headers@.len(),
                head@ == start + header_block(hs.take(i as int)),
            decreases self.headers@.len() - i,
        {
            let ghost before = head@;
            match &self.headers[i] {
                Header::ContentType(v) => {
                    head.append("Content-Type: ");
                    head.append(v.as_str());
                },
                Header::ContentLength(n) => {
                    head.append("Content-Length: ");
                    push_decimal(&mut head, *n);
                },
            }
            head.append("\r\n");
            assert(hs.take(i + 1).drop_last() =~= hs.take(i as int));
            assert(hs.take(i + 1).last() == hs[i as int]);
            assert(head@ =~= before + header_line(hs[i as int]) + "\r\n"@);
            i = i + 1;
            assert(head@ =~= start + header_block(hs.take(i as int)));
        }
        assert(hs.take(i as int) =~= hs);
        head.append("\r\n");
        assert(head@ =~= head_text(self@));
        let mut out = head.as_str().as_bytes_vec();
        match &self.body {
            Some(b) => append_bytes(&mut out, b.as_slice()),
            None => {},
        }
        assert(out@ =~= wire(self@));
        out
    }

    /// The wire bytes of this response as a shared buffer.
    pub fn build(&self) -> (r: bytes::Bytes)
        ensures
            bytes_content(r) == wire(self@),
    {
        freeze(self.encode())
    }

    /// The wire bytes of a bare `200 OK` response.
    pub fn ok() -> (r: bytes::Bytes)
        ensures
            bytes_content(r) == wire(default_view()),
    {
        Response::new().build()
    }

    /// The wire bytes of a bare `404 Not Found` response.
    pub fn not_found() -> (r: bytes::Bytes)
        ensures
            bytes_content(r) == wire(ResponseView { status: StatusCode::NotFound, ..default_view() }),
    {
        let mut r = Response::new();
        r.status(StatusCode::NotFound);
        r.build()
    }
}

impl Default for Response {
    fn default() -> (r: Self)
        ensures
            r@ == default_view(),
    {
        let r = Response {
            protocol: Protocol::Http1_1,
            status: StatusCode::OK,
            headers: Vec::new(),
            body: None,
        };
        assert(r@.headers =~= Seq::<HeaderView>::empty());
        r
    }
}

/// Encoding is deterministic: whatever two calls of `Response::build` return
/// for responses with the same fields (one unmodified response built twice,
/// in particular) holds the same bytes.
pub proof fn build_is_deterministic(
    r1: &Response,
    r2: &Response,
    first: bytes::Bytes,
    second: bytes::Bytes,
)
    requires
        r1@ == r2@,
        bytes_content(first) == wire(r1@),
        bytes_content(second) == wire(r2@),
    ensures
        bytes_content(first) == bytes_content(second),
{
}

} // verus!
