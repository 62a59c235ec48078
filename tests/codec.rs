use http_server::request::{method_from_upper, parse_method, parse_protocol};
use http_server::{Header, HttpError, Method, Protocol, Request, Response, StatusCode};

fn wire(r: &Response) -> Vec<u8> {
    r.build().to_vec()
}

#[test]
fn parse_simple_get() {
    let req = Request::parse(b"GET / HTTP/1.1\r\n\r\n").unwrap();
    assert_eq!(req.method, Method::Get);
    assert_eq!(req.path, "/");
    assert_eq!(req.protocol, Protocol::Http1_1);
    assert!(req.headers.is_empty());
    assert!(req.body.is_none());
}

#[test]
fn parse_headers_and_body() {
    let req = Request::parse(
        b"POST /files/foo.txt HTTP/1.0\r\nHost: x\r\nContent-Length: 5\r\n\r\nhello",
    )
    .unwrap();
    assert_eq!(req.method, Method::Post);
    assert_eq!(req.path, "/files/foo.txt");
    assert_eq!(req.protocol, Protocol::Http1_0);
    assert_eq!(req.headers, vec!["Host: x".to_string(), "Content-Length: 5".to_string()]);
    assert_eq!(req.body.as_deref(), Some(&b"hello"[..]));
}

#[test]
fn parse_joins_body_lines() {
    let req = Request::parse(b"POST /files/a HTTP/1.1\r\n\r\nab\r\ncd\n").unwrap();
    assert_eq!(req.body.as_deref(), Some(&b"abcd"[..]));
}

#[test]
fn parse_bare_line_feeds() {
    let req = Request::parse(b"get /x HTTP/1.1\nA: b\n\n").unwrap();
    assert_eq!(req.method, Method::Get);
    assert_eq!(req.headers, vec!["A: b".to_string()]);
    assert!(req.body.is_none());
}

#[test]
fn parse_ignores_extra_start_tokens() {
    let req = Request::parse(b"PUT  /p   HTTP/1.1 extra more\r\n\r\n").unwrap();
    assert_eq!(req.method, Method::Put);
    assert_eq!(req.path, "/p");
    assert_eq!(req.protocol, Protocol::Http1_1);
}

#[test]
fn parse_empty_input_is_format_error() {
    assert!(matches!(Request::parse(b""), Err(HttpError::InvalidRequestFormat)));
}

#[test]
fn parse_short_start_line_is_format_error() {
    assert!(matches!(Request::parse(b"GET /\r\n\r\n"), Err(HttpError::InvalidRequestFormat)));
    assert!(matches!(Request::parse(b"   \r\n\r\n"), Err(HttpError::InvalidRequestFormat)));
}

#[test]
fn parse_unknown_method() {
    assert!(matches!(
        Request::parse(b"FETCH / HTTP/1.1\r\n\r\n"),
        Err(HttpError::ParseMethodError)
    ));
}

#[test]
fn parse_unknown_protocol() {
    assert!(matches!(
        Request::parse(b"GET / http/1.1\r\n\r\n"),
        Err(HttpError::ParseProtocolError)
    ));
    assert!(matches!(
        Request::parse(b"GET / HTTP/2\r\n\r\n"),
        Err(HttpError::ParseProtocolError)
    ));
}

#[test]
fn parse_missing_terminator_is_format_error() {
    assert!(matches!(
        Request::parse(b"GET / HTTP/1.1\r\n"),
        Err(HttpError::InvalidRequestFormat)
    ));
    assert!(matches!(
        Request::parse(b"GET / HTTP/1.1\r\nHost: a\r\nUser-Agent: b"),
        Err(HttpError::InvalidRequestFormat)
    ));
    assert!(matches!(
        Request::parse(b"GET / HTTP/1.1"),
        Err(HttpError::InvalidRequestFormat)
    ));
}

#[test]
fn parse_invalid_utf8() {
    assert!(matches!(
        Request::parse(b"GET /\xff HTTP/1.1\r\n\r\n"),
        Err(HttpError::UTF8Error(_))
    ));
}

#[test]
fn parse_non_ascii_path() {
    let req = Request::parse("GET /echo/h\u{e9}llo HTTP/1.1\r\n\r\n".as_bytes()).unwrap();
    assert_eq!(req.path, "/echo/h\u{e9}llo");
}

#[test]
fn method_tokens() {
    assert_eq!(parse_method("GET").unwrap(), Method::Get);
    assert_eq!(parse_method("pOsT").unwrap(), Method::Post);
    assert_eq!(parse_method("put").unwrap(), Method::Put);
    assert!(matches!(parse_method("GETS"), Err(HttpError::ParseMethodError)));
    assert!(matches!(parse_method(""), Err(HttpError::ParseMethodError)));
    assert_eq!("get".parse::<Method>().unwrap(), Method::Get);
}

#[test]
fn protocol_tokens() {
    assert_eq!(parse_protocol("HTTP/1.1").unwrap(), Protocol::Http1_1);
    assert_eq!(parse_protocol("HTTP/1.0").unwrap(), Protocol::Http1_0);
    assert!(matches!(parse_protocol("HTTP/1.2"), Err(HttpError::ParseProtocolError)));
    assert_eq!("HTTP/1.0".parse::<Protocol>().unwrap(), Protocol::Http1_0);
}

#[test]
fn build_default_response() {
    assert_eq!(wire(&Response::new()), b"HTTP/1.1 200 OK\r\n\r\n".to_vec());
    assert_eq!(Response::ok().to_vec(), b"HTTP/1.1 200 OK\r\n\r\n".to_vec());
    assert_eq!(wire(&Response::default()), b"HTTP/1.1 200 OK\r\n\r\n".to_vec());
}

#[test]
fn build_not_found() {
    assert_eq!(Response::not_found().to_vec(), b"HTTP/1.1 404 Not Found\r\n\r\n".to_vec());
}

#[test]
fn build_created() {
    let mut r = Response::new();
    r.status(StatusCode::Created);
    assert_eq!(wire(&r), b"HTTP/1.1 201 Created\r\n\r\n".to_vec());
}

#[test]
fn build_headers_in_order_with_body() {
    let mut r = Response::new();
    r.content_type("text/plain");
    r.content_len(1234);
    r.header(Header::ContentLength(0));
    r.header(Header::ContentType("a/b".to_string()));
    r.body(b"xyz");
    assert_eq!(
        wire(&r),
        b"HTTP/1.1 200 OK\r\nContent-Type: text/plain\r\nContent-Length: 1234\r\nContent-Length: 0\r\nContent-Type: a/b\r\n\r\nxyz"
            .to_vec()
    );
}

#[test]
fn build_does_not_add_length() {
    let mut r = Response::new();
    r.body(b"abc");
    assert_eq!(wire(&r), b"HTTP/1.1 200 OK\r\n\r\nabc".to_vec());
}

#[test]
fn build_large_length() {
    let mut r = Response::new();
    r.content_len(usize::MAX);
    let expected = format!("HTTP/1.1 200 OK\r\nContent-Length: {}\r\n\r\n", usize::MAX);
    assert_eq!(wire(&r), expected.into_bytes());
}

#[test]
fn build_is_repeatable() {
    let mut r = Response::new();
    r.content_type("text/plain");
    r.content_len(3);
    r.body(b"abc");
    let first = r.build();
    let second = r.build();
    assert_eq!(first, second);
}

#[test]
fn error_messages() {
    assert_eq!(HttpError::ParseMethodError.message(), "Failed to parse method.");
    assert_eq!(HttpError::ParseProtocolError.message(), "Failed to parse HTTP protocol");
    assert_eq!(HttpError::InvalidRequestFormat.message(), "Invalid request format");
    let e = std::str::from_utf8(&[0xffu8]).unwrap_err();
    assert!(HttpError::from(e).message().starts_with("Error: "));
    let io = std::io::Error::new(std::io::ErrorKind::Other, "boom");
    assert_eq!(HttpError::from(io).message(), "Error: boom");
}

#[test]
fn method_tokens_fold_unicode() {
    assert_eq!(parse_method("po\u{17f}t").unwrap(), Method::Post);
    assert_eq!(parse_method("po\u{fb06}").unwrap(), Method::Post);
    let req = Request::parse("po\u{17f}t /files/a HTTP/1.1\r\n\r\n".as_bytes()).unwrap();
    assert_eq!(req.method, Method::Post);
    assert!(matches!(
        Request::parse("po\u{17f}t / HTTP/1.1\r\nHost: x\r\n".as_bytes()),
        Err(HttpError::InvalidRequestFormat)
    ));
}

#[test]
fn upper_cased_method_tokens() {
    assert_eq!(method_from_upper("GET").unwrap(), Method::Get);
    assert_eq!(method_from_upper("PUT").unwrap(), Method::Put);
    assert_eq!(method_from_upper("POST").unwrap(), Method::Post);
    assert!(matches!(method_from_upper("get"), Err(HttpError::ParseMethodError)));
}

#[test]
fn from_str_tables() {
    assert_eq!("pOsT".parse::<Method>().unwrap(), Method::Post);
    assert_eq!("PUT".parse::<Method>().unwrap(), Method::Put);
    assert!(matches!("HEAD".parse::<Method>(), Err(HttpError::ParseMethodError)));
    assert_eq!("HTTP/1.1".parse::<Protocol>().unwrap(), Protocol::Http1_1);
    assert!(matches!("http/1.1".parse::<Protocol>(), Err(HttpError::ParseProtocolError)));
}

#[test]
fn utf8_error_message_carries_detail() {
    let e = std::str::from_utf8(&[0xffu8]).unwrap_err();
    let expected = format!("Error: {}", e);
    assert_eq!(HttpError::from(e).message(), expected);
}
