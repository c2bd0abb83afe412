use pyruvate::globals::WSGIGlobals;
use pyruvate::handler::FixedResponseHandler;
use pyruvate::ioerror::IoKind;
use pyruvate::poller::{Event, SimPoller};
use pyruvate::request::WSGIRequest;
use pyruvate::response::WSGIResponse;
use pyruvate::transport::{BufferConnection, WriteStep};
use pyruvate::workers::{
    handle_blocking_job, handle_new_job, handle_ready_event, handle_write_event,
    write_blocking_worker, write_non_blocking_worker, BlockingJobOutcome, EventOutcome, Job,
    JobOutcome, WorkerExit, WorkerState,
};

const RAW_GET: &[u8] = b"GET /foo42?bar=baz HTTP/1.1\r\nHost: localhost:7878\r\nUser-Agent: Mozilla/5.0 (X11; Ubuntu; Linux x86_64; rv:70.0) Gecko/20100101 Firefox/70.0\r\nAccept: image/webp,*/*\r\nAccept-Language: de-DE,en-US;q=0.7,en;q=0.3\r\nAccept-Encoding: gzip, deflate\r\nConnection: keep-alive\r\nCookie: foo_language=en;\r\nDNT: 1\r\n\r\n";

const EXPECTED_NON_BLOCKING: &[u8] = b"HTTP/1.1 200 OK\r\nContent-type: text/plain\r\nExpires: Sat, 1 Jan 2000 00:00:00 GMT\r\nVia: pyruvate\r\n\r\nHello world!\n";

const EXPECTED_BLOCKING: &[u8] = b"HTTP/1.1 200 OK\r\nContent-type: text/plain\r\nExpires: Sat, 1 Jan 2000 00:00:00 GMT\r\nContent-Length: 13\r\n\r\nHello world!\n";

fn parsed_request() -> WSGIRequest {
    let mut req = WSGIRequest::new(16, String::new());
    req.append(RAW_GET);
    req.parse_data();
    req
}

fn bytes_for(rx: &crossbeam_channel::Receiver<(usize, Vec<u8>)>, id: usize) -> Vec<u8> {
    let mut out = Vec::new();
    while let Ok((got_id, chunk)) = rx.try_recv() {
        if got_id == id {
            out.extend_from_slice(&chunk);
        }
    }
    out
}

#[test]
fn test_handle_write_event() {
    let mut r = WSGIResponse::new();
    r.current_chunk = b"Foo 42".to_vec();
    r.last_chunk_or_file_sent = true;
    let mut connection = BufferConnection::with_script(vec![
        WriteStep::Accept(4),
        WriteStep::Block,
        WriteStep::Accept(100),
        WriteStep::Fail(IoKind::BrokenPipe),
    ]);
    match handle_write_event(&mut r, &mut connection) {
        Err(_) => panic!(),
        Ok(false) => {
            assert_eq!(connection.written.len(), 4);
            assert_eq!(&connection.written[..4], b"Foo ");
            assert!(!r.complete());
        }
        _ => panic!(),
    }
    match handle_write_event(&mut r, &mut connection) {
        Err(_) => panic!(),
        Ok(true) => {
            assert_eq!(connection.written.len(), 6);
            assert_eq!(&connection.written[..6], b"Foo 42");
        }
        _ => panic!(),
    }
    match handle_write_event(&mut r, &mut connection) {
        Err(e) if e == IoKind::BrokenPipe => (),
        _ => panic!(),
    }
}

#[test]
fn test_write_non_blocking_worker() {
    let handler = FixedResponseHandler::new(EXPECTED_NON_BLOCKING.to_vec());
    let (input, rcv) = crossbeam_channel::unbounded::<Job<BufferConnection>>();
    let (mirror_tx, mirror_rx) = crossbeam_channel::unbounded::<(usize, Vec<u8>)>();

    // First run: the connection takes 20 bytes and then blocks forever; the
    // response stays stashed when the shutdown marker arrives.
    let connection = BufferConnection::with_mirror(
        42,
        vec![WriteStep::Accept(20), WriteStep::Block],
        mirror_tx.clone(),
    );
    input
        .send(Job::Work {
            token: 42,
            request: parsed_request(),
            connection: Some(connection),
        })
        .unwrap();
    input.send(Job::Shutdown).unwrap();
    let report = write_non_blocking_worker::<BufferConnection, FixedResponseHandler, SimPoller>(
        23,
        "127.0.0.1".to_string(),
        "0".to_string(),
        handler.clone(),
        "/foo".to_string(),
        rcv.clone(),
    );
    assert!(report.exit == WorkerExit::ShutdownReceived);
    let got = bytes_for(&mirror_rx, 42);
    assert!(got.len() == 20);
    assert_eq!(&got[..], &EXPECTED_NON_BLOCKING[..20]);

    // Second run: the connection accepts everything at once.
    let connection = BufferConnection::with_mirror(43, Vec::new(), mirror_tx.clone());
    input
        .send(Job::Work {
            token: 42,
            request: parsed_request(),
            connection: Some(connection),
        })
        .unwrap();
    input.send(Job::Shutdown).unwrap();
    let report = write_non_blocking_worker::<BufferConnection, FixedResponseHandler, SimPoller>(
        23,
        "127.0.0.1".to_string(),
        "0".to_string(),
        handler,
        "/foo".to_string(),
        rcv.clone(),
    );
    assert!(report.exit == WorkerExit::ShutdownReceived);
    let got = bytes_for(&mirror_rx, 43);
    assert!(got.len() == EXPECTED_NON_BLOCKING.len());
    assert_eq!(&got[..], EXPECTED_NON_BLOCKING);
}

#[test]
fn test_write_blocking_worker() {
    let handler = FixedResponseHandler::new(EXPECTED_BLOCKING.to_vec());
    let (input, rcv) = crossbeam_channel::unbounded::<Job<BufferConnection>>();
    let (mirror_tx, mirror_rx) = crossbeam_channel::unbounded::<(usize, Vec<u8>)>();
    let connection = BufferConnection::with_mirror(42, Vec::new(), mirror_tx);
    input
        .send(Job::Work {
            token: 42,
            request: parsed_request(),
            connection: Some(connection),
        })
        .unwrap();
    input.send(Job::Shutdown).unwrap();
    let report = write_blocking_worker::<BufferConnection, FixedResponseHandler>(
        23,
        "127.0.0.1".to_string(),
        "0".to_string(),
        handler,
        "/foo".to_string(),
        rcv,
    );
    assert!(report.exit == WorkerExit::ShutdownReceived);
    let got = bytes_for(&mirror_rx, 42);
    assert_eq!(&got[..], EXPECTED_BLOCKING);
}

#[test]
fn test_stash_and_resume() {
    // The connection takes the first 20 bytes, then reports WouldBlock until
    // the simulated writable event arrives.
    let handler = FixedResponseHandler::new(EXPECTED_NON_BLOCKING.to_vec());
    let globals = WSGIGlobals::new("127.0.0.1", "0", "/foo");
    let (mirror_tx, mirror_rx) = crossbeam_channel::unbounded::<(usize, Vec<u8>)>();
    let mut state: WorkerState<BufferConnection> = WorkerState::new();
    let mut poller = SimPoller::with_script(Vec::new());
    let connection = BufferConnection::with_mirror(
        42,
        vec![WriteStep::Accept(20), WriteStep::Block],
        mirror_tx,
    );
    let outcome = handle_new_job(
        &mut state,
        &mut poller,
        &handler,
        &globals,
        42,
        parsed_request(),
        Some(connection),
    );
    assert!(outcome == JobOutcome::Stashed);
    assert!(poller.is_registered(42));
    assert!(state.contains(42));
    let got = bytes_for(&mirror_rx, 42);
    assert_eq!(&got[..], &EXPECTED_NON_BLOCKING[..20]);

    // The writable event arrives: the remainder is delivered and the
    // connection is deregistered and dropped.
    let event = Event {
        token: 42,
        writable: true,
    };
    let outcome = handle_ready_event(&mut state, &mut poller, &event);
    assert!(outcome == EventOutcome::Finished);
    assert!(!poller.is_registered(42));
    assert!(!state.contains(42));
    let got = bytes_for(&mirror_rx, 42);
    assert_eq!(&got[..], &EXPECTED_NON_BLOCKING[20..]);
}

#[test]
fn test_fatal_write_error() {
    // The connection takes a prefix and then breaks; the job leaves the
    // stash entirely and the worker can take the next job.
    let handler = FixedResponseHandler::new(EXPECTED_NON_BLOCKING.to_vec());
    let globals = WSGIGlobals::new("127.0.0.1", "0", "/foo");
    let (mirror_tx, mirror_rx) = crossbeam_channel::unbounded::<(usize, Vec<u8>)>();
    let mut state: WorkerState<BufferConnection> = WorkerState::new();
    let mut poller = SimPoller::with_script(Vec::new());
    let connection = BufferConnection::with_mirror(
        7,
        vec![WriteStep::Accept(5), WriteStep::Fail(IoKind::BrokenPipe)],
        mirror_tx.clone(),
    );
    let outcome = handle_new_job(
        &mut state,
        &mut poller,
        &handler,
        &globals,
        7,
        parsed_request(),
        Some(connection),
    );
    assert!(outcome == JobOutcome::WriteFailed(IoKind::BrokenPipe));
    assert!(!state.contains(7));
    let got = bytes_for(&mirror_rx, 7);
    assert_eq!(&got[..], &EXPECTED_NON_BLOCKING[..5]);

    // The loop carries on: a later job completes normally.
    let connection = BufferConnection::with_mirror(8, Vec::new(), mirror_tx);
    let outcome = handle_new_job(
        &mut state,
        &mut poller,
        &handler,
        &globals,
        8,
        parsed_request(),
        Some(connection),
    );
    assert!(outcome == JobOutcome::Completed);
    assert!(!state.contains(8));
    let got = bytes_for(&mirror_rx, 8);
    assert_eq!(&got[..], EXPECTED_NON_BLOCKING);
}

#[test]
fn test_blocking_worker_single_marker() {
    // Two markers queued: the worker consumes exactly one and leaves the
    // other for the next worker.
    let handler = FixedResponseHandler::new(Vec::new());
    let (input, rcv) = crossbeam_channel::unbounded::<Job<BufferConnection>>();
    input.send(Job::Shutdown).unwrap();
    input.send(Job::Shutdown).unwrap();
    let report = write_blocking_worker::<BufferConnection, FixedResponseHandler>(
        0,
        "127.0.0.1".to_string(),
        "0".to_string(),
        handler,
        "/foo".to_string(),
        rcv.clone(),
    );
    assert!(report.exit == WorkerExit::ShutdownReceived);
    assert_eq!(report.shutdowns_consumed, 1);
    assert!(matches!(rcv.try_recv(), Ok(Job::Shutdown)));
}

#[test]
fn test_non_blocking_worker_single_marker() {
    let handler = FixedResponseHandler::new(Vec::new());
    let (input, rcv) = crossbeam_channel::unbounded::<Job<BufferConnection>>();
    input.send(Job::Shutdown).unwrap();
    input.send(Job::Shutdown).unwrap();
    let report = write_non_blocking_worker::<BufferConnection, FixedResponseHandler, SimPoller>(
        0,
        "127.0.0.1".to_string(),
        "0".to_string(),
        handler,
        "/foo".to_string(),
        rcv.clone(),
    );
    assert!(report.exit == WorkerExit::ShutdownReceived);
    assert_eq!(report.shutdowns_consumed, 1);
    assert!(matches!(rcv.try_recv(), Ok(Job::Shutdown)));
}

#[test]
fn test_worker_exits_on_disconnect() {
    let handler = FixedResponseHandler::new(Vec::new());
    let (input, rcv) = crossbeam_channel::unbounded::<Job<BufferConnection>>();
    drop(input);
    let report = write_blocking_worker::<BufferConnection, FixedResponseHandler>(
        0,
        "127.0.0.1".to_string(),
        "0".to_string(),
        handler,
        "/foo".to_string(),
        rcv,
    );
    assert!(report.exit == WorkerExit::ChannelDisconnected);
    assert_eq!(report.shutdowns_consumed, 0);
}

#[test]
fn test_resume_still_pending() {
    // The writable event arrives but the connection blocks again after a few
    // more bytes: the pair goes back into the stash.
    let handler = FixedResponseHandler::new(EXPECTED_NON_BLOCKING.to_vec());
    let globals = WSGIGlobals::new("127.0.0.1", "0", "/foo");
    let (mirror_tx, mirror_rx) = crossbeam_channel::unbounded::<(usize, Vec<u8>)>();
    let mut state: WorkerState<BufferConnection> = WorkerState::new();
    let mut poller = SimPoller::with_script(Vec::new());
    let connection = BufferConnection::with_mirror(
        42,
        vec![
            WriteStep::Accept(20),
            WriteStep::Block,
            WriteStep::Accept(10),
            WriteStep::Block,
        ],
        mirror_tx,
    );
    let outcome = handle_new_job(
        &mut state,
        &mut poller,
        &handler,
        &globals,
        42,
        parsed_request(),
        Some(connection),
    );
    assert!(outcome == JobOutcome::Stashed);
    let event = Event {
        token: 42,
        writable: true,
    };
    let outcome = handle_ready_event(&mut state, &mut poller, &event);
    assert!(outcome == EventOutcome::StillPending);
    assert!(state.contains(42));
    // The registration stays in place while the response is pending.
    assert!(poller.is_registered(42));
    let got = bytes_for(&mirror_rx, 42);
    assert_eq!(&got[..], &EXPECTED_NON_BLOCKING[..30]);

    // A second event delivers the rest.
    let outcome = handle_ready_event(&mut state, &mut poller, &event);
    assert!(outcome == EventOutcome::Finished);
    assert!(!state.contains(42));
    let got = bytes_for(&mirror_rx, 42);
    assert_eq!(&got[..], &EXPECTED_NON_BLOCKING[30..]);
}

#[test]
fn test_ignored_events() {
    let handler = FixedResponseHandler::new(EXPECTED_NON_BLOCKING.to_vec());
    let globals = WSGIGlobals::new("127.0.0.1", "0", "/foo");
    let mut state: WorkerState<BufferConnection> = WorkerState::new();
    let mut poller = SimPoller::with_script(Vec::new());
    // An unknown token is ignored.
    let event = Event {
        token: 9,
        writable: true,
    };
    assert!(handle_ready_event(&mut state, &mut poller, &event) == EventOutcome::Ignored);
    // A non-writable event is ignored even for a stashed token.
    let connection = BufferConnection::with_script(vec![WriteStep::Block]);
    let outcome = handle_new_job(
        &mut state,
        &mut poller,
        &handler,
        &globals,
        5,
        parsed_request(),
        Some(connection),
    );
    assert!(outcome == JobOutcome::Stashed);
    let event = Event {
        token: 5,
        writable: false,
    };
    assert!(handle_ready_event(&mut state, &mut poller, &event) == EventOutcome::Ignored);
    assert!(state.contains(5));
}

#[test]
fn test_job_without_connection() {
    let handler = FixedResponseHandler::new(EXPECTED_NON_BLOCKING.to_vec());
    let globals = WSGIGlobals::new("127.0.0.1", "0", "/foo");
    let mut state: WorkerState<BufferConnection> = WorkerState::new();
    let mut poller = SimPoller::with_script(Vec::new());
    let outcome = handle_new_job(
        &mut state,
        &mut poller,
        &handler,
        &globals,
        3,
        parsed_request(),
        None,
    );
    assert!(outcome == JobOutcome::NoConnection);
    assert!(!state.contains(3));
}

#[test]
fn test_blocking_job_outcomes() {
    let handler = FixedResponseHandler::new(EXPECTED_BLOCKING.to_vec());
    let globals = WSGIGlobals::new("127.0.0.1", "0", "/foo");
    let (mirror_tx, mirror_rx) = crossbeam_channel::unbounded::<(usize, Vec<u8>)>();

    // No connection attached.
    let outcome = handle_blocking_job::<BufferConnection, FixedResponseHandler>(
        &handler,
        &globals,
        parsed_request(),
        None,
    );
    assert!(outcome == BlockingJobOutcome::NoConnection);

    // A connection that accepts everything: the whole response goes out.
    let connection = BufferConnection::with_mirror(1, Vec::new(), mirror_tx.clone());
    let outcome = handle_blocking_job(&handler, &globals, parsed_request(), Some(connection));
    assert!(outcome == BlockingJobOutcome::Completed);
    assert_eq!(&bytes_for(&mirror_rx, 1)[..], EXPECTED_BLOCKING);

    // A connection that breaks mid-write: the error is reported, the prefix
    // was written, nothing is retried.
    let connection = BufferConnection::with_mirror(
        2,
        vec![WriteStep::Accept(10), WriteStep::Fail(IoKind::BrokenPipe)],
        mirror_tx,
    );
    let outcome = handle_blocking_job(&handler, &globals, parsed_request(), Some(connection));
    assert!(outcome == BlockingJobOutcome::WriteFailed(IoKind::BrokenPipe));
    assert_eq!(&bytes_for(&mirror_rx, 2)[..], &EXPECTED_BLOCKING[..10]);
}
