//! The router: which response a request gets, or which file-store operation
//! it needs first.
use vstd::prelude::*;
use vstd::string::StrSliceExecFns;
use vstd::utf8::encode_utf8;
use crate::request::{same_text, starts_with_ci, starts_with_ignore_case, Method, Request, RequestView};
use crate::response::{
    bytes_content, default_view, header_block, head_text, HeaderView, Protocol, Response, ResponseView,
    StatusCode,
};
use crate::text::{after_last_slash, last_component, starts_with, trim, trimmed, views};

verus! {

/// What the router decided for a request.
#[derive(Debug)]
pub enum Dispatch {
    /// Send this response.
    Respond(Response),
    /// Read this file from the store, then answer with `file_response`
    /// (or `Response::not_found` when the read fails).
    ReadFile(String),
    /// Store this body under this name, then answer with `created`
    /// (or `Response::not_found` when the write fails).
    WriteFile(String, Option<bytes::Bytes>),
}

/// What a `Dispatch` stands for.
pub enum DispatchView {
    Respond(ResponseView),
    ReadFile(Seq<char>),
    WriteFile(Seq<char>, Option<Seq<u8>>),
}

impl View for Dispatch {
    type V = DispatchView;

    open spec fn view(&self) -> DispatchView {
        match self {
            Dispatch::Respond(r) => DispatchView::Respond(r@),
            Dispatch::ReadFile(n) => DispatchView::ReadFile(n@),
            Dispatch::WriteFile(n, b) => DispatchView::WriteFile(
                n@,
                match b {
                    Some(x) => Some(bytes_content(*x)),
                    None => None,
                },
            ),
        }
    }
}

/// A bare response with the given status.
pub open spec fn bare(status: StatusCode) -> ResponseView {
    ResponseView { status, ..default_view() }
}

/// A 200 response carrying `body`, with its content type and byte length.
pub open spec fn content_view(content_type: Seq<char>, body: Seq<u8>) -> ResponseView {
    ResponseView {
        protocol: Protocol::Http1_1,
        status: StatusCode::OK,
        headers: seq![HeaderView::ContentType(content_type), HeaderView::ContentLength(body.len())],
        body: Some(body),
    }
}

/// The first header line that names the user agent, if any.
pub open spec fn agent_line(hs: Seq<Seq<char>>) -> Option<Seq<char>>
    decreases hs.len(),
{
    if hs.len() == 0 {
        None
    } else if starts_with_ci(hs[0], "user-agent:"@) {
        Some(hs[0])
    } else {
        agent_line(hs.drop_first())
    }
}

/// The value of a user-agent header line: after the colon, trimmed.
pub open spec fn agent_value(line: Seq<char>) -> Seq<char> {
    trimmed(line.subrange("user-agent:"@.len() as int, line.len() as int))
}

/// The name under `/files/`.
pub open spec fn file_name(path: Seq<char>) -> Seq<char> {
    path.subrange("/files/"@.len() as int, path.len() as int)
}

/// Whether a path names a file of the store: `/files/` and a non-empty rest.
pub open spec fn is_file_path(path: Seq<char>) -> bool {
    "/files/"@.is_prefix_of(path) && path.len() > "/files/"@.len()
}

/// Whether a path is an echo: `/echo/` and a non-empty final component.
pub open spec fn is_echo_path(path: Seq<char>) -> bool {
    "/echo/"@.is_prefix_of(path) && after_last_slash(path).len() > 0
}

/// The decision for a GET request.
pub open spec fn get_spec(req: RequestView) -> DispatchView {
    let p = req.path;
    if is_echo_path(p) {
        DispatchView::Respond(content_view("text/plain"@, encode_utf8(after_last_slash(p))))
    } else if p == "/user-agent"@ {
        match agent_line(req.headers) {
            Some(line) => DispatchView::Respond(
                content_view("text/plain"@, encode_utf8(agent_value(line))),
            ),
            None => DispatchView::Respond(default_view()),
        }
    } else if p == "/"@ {
        DispatchView::Respond(default_view())
    } else if is_file_path(p) {
        DispatchView::ReadFile(file_name(p))
    } else {
        DispatchView::Respond(bare(StatusCode::NotFound))
    }
}

/// The decision for a POST request.
pub open spec fn post_spec(req: RequestView) -> DispatchView {
    if is_file_path(req.path) {
        DispatchView::WriteFile(file_name(req.path), req.body)
    } else {
        DispatchView::Respond(bare(StatusCode::NotFound))
    }
}

/// The decision for any request: by method, then by path.
pub open spec fn route_spec(req: RequestView) -> DispatchView {
    match req.method {
        Method::Get => get_spec(req),
        Method::Post => post_spec(req),
        Method::Put => DispatchView::Respond(bare(StatusCode::NotFound)),
    }
}

/// A 200 response carrying `body` with the given content type and length.
fn content_response(content_type: &str, body: &[u8]) -> (r: Response)
    ensures
        r@ == content_view(content_type@, body@),
{
    let mut r = Response::new();
    r.body(body);
    r.status(StatusCode::OK);
    r.content_type(content_type);
    r.content_len(body.len());
    assert(r@.headers =~= seq![
        HeaderView::ContentType(content_type@),
        HeaderView::ContentLength(body@.len()),
    ]);
    r
}

/// A bare response with the given status.
fn bare_response(status: StatusCode) -> (r: Response)
    ensures
        r@ == bare(status),
{
    let mut r = Response::new();
    r.status(status);
    r
}

/// The response to a GET of a file whose contents the store returned.
pub fn file_response(contents: &[u8]) -> (r: Response)
    ensures
        r@ == content_view("application/octet-stream"@, contents@),
{
    content_response("application/octet-stream", contents)
}

/// The response to a POST whose body the store has written.
pub fn created() -> (r: Response)
    ensures
        r@ == bare(StatusCode::Created),
{
    bare_response(StatusCode::Created)
}

/// The first header line that names the user agent (see `agent_line`).
fn find_agent(headers: &Vec<String>) -> (r: Option<usize>)
    ensures
        match r {
            Some(i) => i < headers@.len() && agent_line(views(headers@)) == Some(
                headers@[i as int]@,
            ) && starts_with_ci(headers@[i as int]@, "user-agent:"@),
            None => agent_line(views(headers@)) is None,
        },
{
    let ghost hs = views(headers@);
    let mut i: usize = 0;
    assert(hs.subrange(0, hs.len() as int) =~= hs);
    while i < headers.len()
        invariant
            hs == views(headers@),
            i <= hs.len(),
            agent_line(hs) == agent_line(hs.subrange(i as int, hs.len() as int)),
        decreases hs.len() - i,
    {
        assert(hs[i as int] == headers@[i as int]@);
        if starts_with_ignore_case(headers[i].as_str(), "user-agent:") {
            return Some(i);
        }
        assert(hs.subrange(i as int, hs.len() as int).drop_first() =~= hs.subrange(
            i + 1,
            hs.len() as int,
        ));
        i = i + 1;
    }
    None
}

/// Decides what a GET request gets.
pub fn get(request: &Request) -> (r: Dispatch)
    ensures
        r@ == get_spec(request@),
{
    proof {
        reveal_strlit("/files/");
        reveal_strlit("user-agent:");
    }
    let path = request.path.as_str();
    if starts_with(path, "/echo/") {
        let msg = last_component(path);
        if !msg.as_str().is_empty() {
            return Dispatch::Respond(content_response("text/plain", msg.as_str().as_bytes()));
        }
    }
    if same_text(path, "/user-agent") {
        match find_agent(&request.headers) {
            Some(i) => {
                let line = request.headers[i].as_str();
                let n = line.unicode_len();
                let value = trim(line.substring_char(11, n));
                Dispatch::Respond(content_response("text/plain", value.as_str().as_bytes()))
            },
            None => Dispatch::Respond(Response::new()),
        }
    } else if same_text(path, "/") {
        Dispatch::Respond(Response::new())
    } else if starts_with(path, "/files/") && path.unicode_len() > 7 {
        let n = path.unicode_len();
        Dispatch::ReadFile(path.substring_char(7, n).to_owned())
    } else {
        Dispatch::Respond(bare_response(StatusCode::NotFound))
    }
}

/// Decides what a POST request gets.
pub fn post(request: Request) -> (r: Dispatch)
    ensures
        r@ == post_spec(request@),
{
    proof {
        reveal_strlit("/files/");
    }
    let path = request.path.as_str();
    if starts_with(path, "/files/") && path.unicode_len() > 7 {
        let n = path.unicode_len();
        let name = path.substring_char(7, n).to_owned();
        Dispatch::WriteFile(name, request.body)
    } else {
        Dispatch::Respond(bare_response(StatusCode::NotFound))
    }
}

/// Decides what a request gets: by method, then by path. PUT is not served.
pub fn route(request: Request) -> (r: Dispatch)
    ensures
        r@ == route_spec(request@),
{
    match request.method {
        Method::Get => get(&request),
        Method::Post => post(request),
        Method::Put => Dispatch::Respond(bare_response(StatusCode::NotFound)),
    }
}

/// A GET of `/` is answered `HTTP/1.1 200 OK` with no header and no body.
pub proof fn root_is_ok(req: RequestView)
    requires
        req.method == Method::Get,
        req.path == "/"@,
    ensures
        route_spec(req) == DispatchView::Respond(default_view()),
        head_text(default_view()) == "HTTP/1.1 200 OK\r\n\r\n"@,
        default_view().body is None,
{
    reveal_strlit("/");
    reveal_strlit("/echo/");
    reveal_strlit("/user-agent");
    reveal_strlit("HTTP/1.1");
    reveal_strlit(" ");
    reveal_strlit("200 OK");
    reveal_strlit("\r\n");
    reveal_strlit("HTTP/1.1 200 OK\r\n\r\n");
    assert(header_block(Seq::empty()) == Seq::<char>::empty());
    assert(head_text(default_view()) =~= "HTTP/1.1 200 OK\r\n\r\n"@);
}

/// A GET of a path that no route serves is answered 404 with no body.
pub proof fn unknown_get_is_not_found(req: RequestView)
    requires
        req.method == Method::Get,
        !is_echo_path(req.path),
        req.path != "/user-agent"@,
        req.path != "/"@,
        !is_file_path(req.path),
    ensures
        route_spec(req) == DispatchView::Respond(bare(StatusCode::NotFound)),
        bare(StatusCode::NotFound).status == StatusCode::NotFound,
        bare(StatusCode::NotFound).body is None,
{
}

} // verus!
