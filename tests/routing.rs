use http_server::{created, file_response, get, post, route, Dispatch, Request, Response};

fn respond(input: &str) -> Vec<u8> {
    let req = Request::parse(input.as_bytes()).unwrap();
    match route(req) {
        Dispatch::Respond(r) => r.build().to_vec(),
        other => panic!("expected a response, got {:?}", other),
    }
}

#[test]
fn root_is_ok_without_body() {
    assert_eq!(respond("GET / HTTP/1.1\r\n\r\n"), b"HTTP/1.1 200 OK\r\n\r\n".to_vec());
    assert_eq!(
        respond("GET / HTTP/1.1\r\nHost: localhost\r\n\r\n"),
        b"HTTP/1.1 200 OK\r\n\r\n".to_vec()
    );
}

#[test]
fn echo_returns_message() {
    let out = respond("GET /echo/abc HTTP/1.1\r\n\r\n");
    assert_eq!(
        out,
        b"HTTP/1.1 200 OK\r\nContent-Type: text/plain\r\nContent-Length: 3\r\n\r\nabc".to_vec()
    );
}

#[test]
fn echo_counts_bytes() {
    let out = respond("GET /echo/h\u{e9}llo HTTP/1.1\r\n\r\n");
    let mut expected = b"HTTP/1.1 200 OK\r\nContent-Type: text/plain\r\nContent-Length: 6\r\n\r\n".to_vec();
    expected.extend_from_slice("h\u{e9}llo".as_bytes());
    assert_eq!(out, expected);
}

#[test]
fn echo_takes_final_component() {
    let out = respond("GET /echo/a/b HTTP/1.1\r\n\r\n");
    assert!(out.ends_with(b"\r\n\r\nb"));
}

#[test]
fn echo_without_message_is_not_found() {
    assert_eq!(respond("GET /echo/ HTTP/1.1\r\n\r\n"), b"HTTP/1.1 404 Not Found\r\n\r\n".to_vec());
    assert_eq!(respond("GET /echo HTTP/1.1\r\n\r\n"), b"HTTP/1.1 404 Not Found\r\n\r\n".to_vec());
}

#[test]
fn user_agent_is_reported() {
    let out = respond("GET /user-agent HTTP/1.1\r\nUser-Agent: test-client\r\n\r\n");
    assert_eq!(
        out,
        b"HTTP/1.1 200 OK\r\nContent-Type: text/plain\r\nContent-Length: 11\r\n\r\ntest-client"
            .to_vec()
    );
}

#[test]
fn user_agent_case_and_spaces() {
    let out = respond("GET /user-agent HTTP/1.1\r\nHost: h\r\nuSER-aGENT:   curl/8 \t\r\n\r\n");
    assert!(out.ends_with(b"Content-Length: 6\r\n\r\ncurl/8"));
}

#[test]
fn user_agent_missing_is_plain_ok() {
    assert_eq!(
        respond("GET /user-agent HTTP/1.1\r\nHost: h\r\n\r\n"),
        b"HTTP/1.1 200 OK\r\n\r\n".to_vec()
    );
}

#[test]
fn unknown_path_is_not_found() {
    assert_eq!(
        respond("GET /nonexistent HTTP/1.1\r\n\r\n"),
        b"HTTP/1.1 404 Not Found\r\n\r\n".to_vec()
    );
}

#[test]
fn put_is_not_found() {
    assert_eq!(respond("PUT / HTTP/1.1\r\n\r\n"), b"HTTP/1.1 404 Not Found\r\n\r\n".to_vec());
}

#[test]
fn post_outside_files_is_not_found() {
    assert_eq!(respond("POST /echo/x HTTP/1.1\r\n\r\n"), b"HTTP/1.1 404 Not Found\r\n\r\n".to_vec());
    assert_eq!(respond("POST /files/ HTTP/1.1\r\n\r\n"), b"HTTP/1.1 404 Not Found\r\n\r\n".to_vec());
}

#[test]
fn get_file_asks_the_store() {
    let req = Request::parse(b"GET /files/notes.txt HTTP/1.1\r\n\r\n").unwrap();
    match get(&req) {
        Dispatch::ReadFile(name) => assert_eq!(name, "notes.txt"),
        other => panic!("unexpected {:?}", other),
    }
}

#[test]
fn post_file_hands_over_body() {
    let req =
        Request::parse(b"POST /files/foo.txt HTTP/1.1\r\nContent-Length: 5\r\n\r\nhello").unwrap();
    match post(req) {
        Dispatch::WriteFile(name, body) => {
            assert_eq!(name, "foo.txt");
            assert_eq!(body.as_deref(), Some(&b"hello"[..]));
        }
        other => panic!("unexpected {:?}", other),
    }
}

#[test]
fn file_and_created_responses() {
    assert_eq!(
        file_response(b"12345").build().to_vec(),
        b"HTTP/1.1 200 OK\r\nContent-Type: application/octet-stream\r\nContent-Length: 5\r\n\r\n12345"
            .to_vec()
    );
    assert_eq!(created().build().to_vec(), b"HTTP/1.1 201 Created\r\n\r\n".to_vec());
    assert_eq!(Response::not_found().to_vec(), b"HTTP/1.1 404 Not Found\r\n\r\n".to_vec());
}

#[test]
fn user_agent_path_must_match_exactly() {
    assert_eq!(
        respond("GET /user-agentx HTTP/1.1\r\nUser-Agent: a\r\n\r\n"),
        b"HTTP/1.1 404 Not Found\r\n\r\n".to_vec()
    );
}
