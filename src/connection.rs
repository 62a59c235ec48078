//! The per-connection loop as a state machine: the caller performs each
//! action (read, file-store operation, write) and feeds back what happened.
use vstd::prelude::*;
use vstd::utf8::{decode_utf8, valid_utf8};
use crate::request::{parse_text, Request};
use crate::response::{bytes_content, wire, Response, StatusCode};
use crate::router::{bare, content_view, created, file_response, route, route_spec, Dispatch, DispatchView};

verus! {

/// Where a connection stands.
#[derive(Debug, Clone, Copy, PartialEq, Eq, Structural)]
pub enum Phase {
    /// Waiting for the bytes of the next request.
    Reading,
    /// Waiting for the file store to finish an operation.
    Dispatching,
    /// Waiting for a response to be written out.
    Writing,
    /// Done: the connection is to be released.
    Closed,
}

/// What happened since the last action.
#[derive(Debug)]
pub enum Event {
    /// A read returned these bytes; none means the peer closed.
    Received(Vec<u8>),
    /// The read failed.
    ReadFailed,
    /// The store returned the contents of the file asked for.
    FileLoaded(Vec<u8>),
    /// The store operation failed.
    FileFailed,
    /// The store wrote the file.
    FileStored,
    /// The response was written out in full.
    Sent,
    /// The write failed.
    SendFailed,
}

/// What the caller is to do next.
#[derive(Debug)]
pub enum Action {
    /// Read from the connection.
    Read,
    /// Read this file from the store.
    ReadFile(String),
    /// Write this body to this file in the store.
    WriteFile(String, Option<bytes::Bytes>),
    /// Write these bytes to the connection.
    Write(bytes::Bytes),
    /// Close the connection.
    Close,
}

/// What an `Event` stands for.
pub enum EventView {
    Received(Seq<u8>),
    ReadFailed,
    FileLoaded(Seq<u8>),
    FileFailed,
    FileStored,
    Sent,
    SendFailed,
}

/// What an `Action` stands for.
pub enum ActionView {
    Read,
    ReadFile(Seq<char>),
    WriteFile(Seq<char>, Option<Seq<u8>>),
    Write(Seq<u8>),
    Close,
}

impl View for Event {
    type V = EventView;

    open spec fn view(&self) -> EventView {
        match self {
            Event::Received(b) => EventView::Received(b@),
            Event::ReadFailed => EventView::ReadFailed,
            Event::FileLoaded(b) => EventView::FileLoaded(b@),
            Event::FileFailed => EventView::FileFailed,
            Event::FileStored => EventView::FileStored,
            Event::Sent => EventView::Sent,
            Event::SendFailed => EventView::SendFailed,
        }
    }
}

impl View for Action {
    type V = ActionView;

    open spec fn view(&self) -> ActionView {
        match self {
            Action::Read => ActionView::Read,
            Action::ReadFile(n) => ActionView::ReadFile(n@),
            Action::WriteFile(n, b) => ActionView::WriteFile(
                n@,
                match b {
                    Some(x) => Some(bytes_content(*x)),
                    None => None,
                },
            ),
            Action::Write(b) => ActionView::Write(bytes_content(*b)),
            Action::Close => ActionView::Close,
        }
    }
}

/// The wire bytes of a bare 404 response.
pub open spec fn not_found_wire() -> Seq<u8> {
    wire(bare(StatusCode::NotFound))
}

/// The next step for the bytes of one read that held something: a response
/// to write, or a file-store operation to perform first. A request that
/// cannot be decoded is answered with 404.
pub open spec fn reply_to(bytes: Seq<u8>) -> (Phase, ActionView) {
    if !valid_utf8(bytes) {
        (Phase::Writing, ActionView::Write(not_found_wire()))
    } else {
        match parse_text(decode_utf8(bytes)) {
            Err(_) => (Phase::Writing, ActionView::Write(not_found_wire())),
            Ok(req) => match route_spec(req) {
                DispatchView::Respond(r) => (Phase::Writing, ActionView::Write(wire(r))),
                DispatchView::ReadFile(n) => (Phase::Dispatching, ActionView::ReadFile(n)),
                DispatchView::WriteFile(n, b) => (Phase::Dispatching, ActionView::WriteFile(n, b)),
            },
        }
    }
}

/// One transition of the connection loop.
pub open spec fn step_spec(state: Phase, event: EventView) -> (Phase, ActionView) {
    match (state, event) {
        (Phase::Reading, EventView::Received(b)) => if b.len() == 0 {
            (Phase::Closed, ActionView::Close)
        } else {
            reply_to(b)
        },
        (Phase::Dispatching, EventView::FileLoaded(c)) => (
            Phase::Writing,
            ActionView::Write(wire(content_view("application/octet-stream"@, c))),
        ),
        (Phase::Dispatching, EventView::FileStored) => (
            Phase::Writing,
            ActionView::Write(wire(bare(StatusCode::Created))),
        ),
        (Phase::Dispatching, EventView::FileFailed) => (
            Phase::Writing,
            ActionView::Write(not_found_wire()),
        ),
        (Phase::Writing, EventView::Sent) => (Phase::Reading, ActionView::Read),
        _ => (Phase::Closed, ActionView::Close),
    }
}

/// Runs the connection loop over a sequence of events: the final state and
/// the actions asked for, in order.
pub open spec fn run(state: Phase, events: Seq<EventView>) -> (Phase, Seq<ActionView>)
    decreases events.len(),
{
    if events.len() == 0 {
        (state, Seq::empty())
    } else {
        let (next, action) = step_spec(state, events[0]);
        let (last, rest) = run(next, events.drop_first());
        (last, seq![action] + rest)
    }
}

/// The state a fresh connection starts in, and what it does first.
pub fn start() -> (r: (Phase, Action))
    ensures
        r.0 == Phase::Reading,
        r.1@ == ActionView::Read,
{
    (Phase::Reading, Action::Read)
}

/// Answers the bytes of one read that held something.
fn reply(bytes: &[u8]) -> (r: (Phase, Action))
    requires
        bytes@.len() > 0,
    ensures
        (r.0, r.1@) == reply_to(bytes@),
{
    match Request::parse(bytes) {
        Err(_) => (Phase::Writing, Action::Write(Response::not_found())),
        Ok(req) => match route(req) {
            Dispatch::Respond(r) => (Phase::Writing, Action::Write(r.build())),
            Dispatch::ReadFile(n) => (Phase::Dispatching, Action::ReadFile(n)),
            Dispatch::WriteFile(n, b) => (Phase::Dispatching, Action::WriteFile(n, b)),
        },
    }
}

/// One transition of the connection loop (see `step_spec`).
pub fn step(state: Phase, event: Event) -> (r: (Phase, Action))
    ensures
        (r.0, r.1@) == step_spec(state, event@),
{
    match (state, event) {
        (Phase::Reading, Event::Received(b)) => {
            if b.len() == 0 {
                (Phase::Closed, Action::Close)
            } else {
                reply(b.as_slice())
            }
        },
        (Phase::Dispatching, Event::FileLoaded(c)) => {
            (Phase::Writing, Action::Write(file_response(c.as_slice()).build()))
        },
        (Phase::Dispatching, Event::FileStored) => {
            (Phase::Writing, Action::Write(created().build()))
        },
        (Phase::Dispatching, Event::FileFailed) => {
            (Phase::Writing, Action::Write(Response::not_found()))
        },
        (Phase::Writing, Event::Sent) => (Phase::Reading, Action::Read),
        _ => (Phase::Closed, Action::Close),
    }
}

/// Whether the answer to these bytes waits on the file store.
pub open spec fn needs_store(bytes: Seq<u8>) -> bool {
    reply_to(bytes).0 == Phase::Dispatching
}

/// An event that reports how a file-store operation ended.
pub open spec fn is_store_result(e: EventView) -> bool {
    e is FileLoaded || e is FileStored || e is FileFailed
}

/// The events of one request/response cycle: the read, the store's report
/// `f` where the request needs the store, and the completed write.
pub open spec fn exchange(bytes: Seq<u8>, f: EventView) -> Seq<EventView> {
    if needs_store(bytes) {
        seq![EventView::Received(bytes), f, EventView::Sent]
    } else {
        seq![EventView::Received(bytes), EventView::Sent]
    }
}

/// The response written in that cycle.
pub open spec fn response_to(bytes: Seq<u8>, f: EventView) -> ActionView {
    if needs_store(bytes) {
        step_spec(Phase::Dispatching, f).1
    } else {
        reply_to(bytes).1
    }
}

/// The actions asked for in that cycle, ending with the next read.
pub open spec fn answer(bytes: Seq<u8>, f: EventView) -> Seq<ActionView> {
    if needs_store(bytes) {
        seq![reply_to(bytes).1, response_to(bytes, f), ActionView::Read]
    } else {
        seq![response_to(bytes, f), ActionView::Read]
    }
}

proof fn lemma_run_concat(s: Phase, a: Seq<EventView>, b: Seq<EventView>)
    ensures
        run(s, a + b) == (run(run(s, a).0, b).0, run(s, a).1 + run(run(s, a).0, b).1),
    decreases a.len(),
{
    if a.len() == 0 {
        assert(a + b =~= b);
        assert(run(s, a).1 + run(s, b).1 =~= run(s, b).1);
    } else {
        let (next, action) = step_spec(s, a[0]);
        assert((a + b)[0] == a[0]);
        assert((a + b).drop_first() =~= a.drop_first() + b);
        lemma_run_concat(next, a.drop_first(), b);
        let mid = run(next, a.drop_first());
        let tail = run(mid.0, b);
        assert(seq![action] + (mid.1 + tail.1) =~= (seq![action] + mid.1) + tail.1);
    }
}

proof fn lemma_run_one(s: Phase, e: EventView)
    ensures
        run(s, seq![e]) == (step_spec(s, e).0, seq![step_spec(s, e).1]),
{
    let evs = seq![e];
    assert(evs[0] == e);
    assert(evs.drop_first() =~= Seq::<EventView>::empty());
    let rest = run(step_spec(s, e).0, Seq::<EventView>::empty());
    assert(rest.0 == step_spec(s, e).0 && rest.1 == Seq::<ActionView>::empty());
    assert(seq![step_spec(s, e).1] + Seq::<ActionView>::empty() =~= seq![step_spec(s, e).1]);
}

proof fn lemma_exchange(bytes: Seq<u8>, f: EventView)
    requires
        bytes.len() > 0,
        is_store_result(f),
    ensures
        run(Phase::Reading, exchange(bytes, f)) == (Phase::Reading, answer(bytes, f)),
        response_to(bytes, f) is Write,
{
    let r = reply_to(bytes);
    lemma_run_one(Phase::Writing, EventView::Sent);
    if needs_store(bytes) {
        let w = step_spec(Phase::Dispatching, f);
        lemma_run_one(Phase::Reading, EventView::Received(bytes));
        lemma_run_one(Phase::Dispatching, f);
        assert(exchange(bytes, f) =~= seq![EventView::Received(bytes)] + (seq![f] + seq![
            EventView::Sent,
        ]));
        lemma_run_concat(Phase::Dispatching, seq![f], seq![EventView::Sent]);
        lemma_run_concat(
            Phase::Reading,
            seq![EventView::Received(bytes)],
            seq![f] + seq![EventView::Sent],
        );
        assert(seq![r.1] + (seq![w.1] + seq![ActionView::Read]) =~= answer(bytes, f));
    } else {
        lemma_run_one(Phase::Reading, EventView::Received(bytes));
        assert(exchange(bytes, f) =~= seq![EventView::Received(bytes)] + seq![EventView::Sent]);
        lemma_run_concat(Phase::Reading, seq![EventView::Received(bytes)], seq![EventView::Sent]);
        assert(seq![r.1] + seq![ActionView::Read] =~= answer(bytes, f));
    }
}

/// Two requests sent one after the other get their two responses, in
/// order, whether or not they go through the file store (`f1` and `f2`
/// report how the store operations ended); a read of zero bytes then
/// closes the connection.
pub proof fn two_requests_then_close(
    first: Seq<u8>,
    f1: EventView,
    second: Seq<u8>,
    f2: EventView,
)
    requires
        first.len() > 0,
        second.len() > 0,
        is_store_result(f1),
        is_store_result(f2),
    ensures
        run(
            Phase::Reading,
            exchange(first, f1) + exchange(second, f2) + seq![EventView::Received(Seq::empty())],
        ) == (Phase::Closed, answer(first, f1) + answer(second, f2) + seq![ActionView::Close]),
        response_to(first, f1) is Write,
        response_to(second, f2) is Write,
{
    let e1 = exchange(first, f1);
    let e2 = exchange(second, f2);
    let last = seq![EventView::Received(Seq::<u8>::empty())];
    lemma_exchange(first, f1);
    lemma_exchange(second, f2);
    lemma_run_one(Phase::Reading, EventView::Received(Seq::<u8>::empty()));
    lemma_run_concat(Phase::Reading, e1, e2);
    lemma_run_concat(Phase::Reading, e1 + e2, last);
}

} // verus!
