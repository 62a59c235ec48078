use std::collections::HashMap;

use http_server::{start, step, Action, Event, Phase};

/// Drives one connection over scripted reads, with an in-memory file store.
fn drive(reads: Vec<Vec<u8>>, store: &mut HashMap<String, Vec<u8>>) -> (Vec<Vec<u8>>, Phase) {
    let mut reads = reads.into_iter();
    let mut written = Vec::new();
    let (mut phase, mut action) = start();
    loop {
        let event = match action {
            Action::Read => Event::Received(reads.next().unwrap_or_default()),
            Action::ReadFile(name) => match store.get(&name) {
                Some(c) => Event::FileLoaded(c.clone()),
                None => Event::FileFailed,
            },
            Action::WriteFile(name, body) => {
                store.insert(name, body.map(|b| b.to_vec()).unwrap_or_default());
                Event::FileStored
            }
            Action::Write(bytes) => {
                written.push(bytes.to_vec());
                Event::Sent
            }
            Action::Close => return (written, phase),
        };
        let (p, a) = step(phase, event);
        phase = p;
        action = a;
    }
}

#[test]
fn post_then_read_back() {
    let mut store = HashMap::new();
    let (out, phase) = drive(
        vec![
            b"POST /files/foo.txt HTTP/1.1\r\nContent-Length: 5\r\n\r\nhello".to_vec(),
            b"GET /files/foo.txt HTTP/1.1\r\n\r\n".to_vec(),
        ],
        &mut store,
    );
    assert_eq!(phase, Phase::Closed);
    assert_eq!(store.get("foo.txt"), Some(&b"hello".to_vec()));
    assert_eq!(out[0], b"HTTP/1.1 201 Created\r\n\r\n".to_vec());
    assert_eq!(
        out[1],
        b"HTTP/1.1 200 OK\r\nContent-Type: application/octet-stream\r\nContent-Length: 5\r\n\r\nhello"
            .to_vec()
    );
}

#[test]
fn missing_file_is_not_found() {
    let mut store = HashMap::new();
    let (out, _) = drive(vec![b"GET /files/none HTTP/1.1\r\n\r\n".to_vec()], &mut store);
    assert_eq!(out, vec![b"HTTP/1.1 404 Not Found\r\n\r\n".to_vec()]);
}

#[test]
fn two_requests_in_order_then_close() {
    let mut store = HashMap::new();
    let (out, phase) = drive(
        vec![
            b"GET /echo/one HTTP/1.1\r\n\r\n".to_vec(),
            b"GET /nonexistent HTTP/1.1\r\n\r\n".to_vec(),
        ],
        &mut store,
    );
    assert_eq!(phase, Phase::Closed);
    assert_eq!(out.len(), 2);
    assert_eq!(
        out[0],
        b"HTTP/1.1 200 OK\r\nContent-Type: text/plain\r\nContent-Length: 3\r\n\r\none".to_vec()
    );
    assert_eq!(out[1], b"HTTP/1.1 404 Not Found\r\n\r\n".to_vec());
}

#[test]
fn bad_request_gets_not_found_and_stays_open() {
    let mut store = HashMap::new();
    let (out, phase) = drive(
        vec![b"garbage".to_vec(), b"GET / HTTP/1.1\r\n\r\n".to_vec()],
        &mut store,
    );
    assert_eq!(phase, Phase::Closed);
    assert_eq!(
        out,
        vec![b"HTTP/1.1 404 Not Found\r\n\r\n".to_vec(), b"HTTP/1.1 200 OK\r\n\r\n".to_vec()]
    );
}

#[test]
fn empty_read_closes() {
    let (p, a) = step(Phase::Reading, Event::Received(Vec::new()));
    assert_eq!(p, Phase::Closed);
    assert!(matches!(a, Action::Close));
}

#[test]
fn transport_failures_close() {
    let (p, a) = step(Phase::Reading, Event::ReadFailed);
    assert_eq!(p, Phase::Closed);
    assert!(matches!(a, Action::Close));
    let (p, a) = step(Phase::Writing, Event::SendFailed);
    assert_eq!(p, Phase::Closed);
    assert!(matches!(a, Action::Close));
}

#[test]
fn store_failure_is_not_found() {
    let (p, a) = step(Phase::Dispatching, Event::FileFailed);
    assert_eq!(p, Phase::Writing);
    match a {
        Action::Write(b) => assert_eq!(b.to_vec(), b"HTTP/1.1 404 Not Found\r\n\r\n".to_vec()),
        other => panic!("unexpected {:?}", other),
    }
}

#[test]
fn sent_returns_to_reading() {
    let (p, a) = step(Phase::Writing, Event::Sent);
    assert_eq!(p, Phase::Reading);
    assert!(matches!(a, Action::Read));
}
