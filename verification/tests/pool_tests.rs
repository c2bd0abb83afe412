use pyruvate::handler::FixedResponseHandler;
use pyruvate::poller::SimPoller;
use pyruvate::request::WSGIRequest;
use pyruvate::transport::BufferConnection;
use pyruvate::workerpool::{PoolError, WorkerPool};
use pyruvate::workers::{write_blocking_worker, write_non_blocking_worker};

const RAW_REQUEST: &[u8] = b"GET /foo42?bar=baz HTTP/1.1\r\nHost: localhost:7878\r\nUser-Agent: Mozilla/5.0 (X11; Ubuntu; Linux x86_64; rv:70.0) Gecko/20100101 Firefox/70.0\r\nAccept: image/webp,*/*\r\nAccept-Language: de-DE,en-US;q=0.7,en;q=0.3\r\nAccept-Encoding: gzip, deflate\r\nConnection: keep-alive\r\nCookie: foo_language=en;\r\nDNT: 1\r\n\r\n";

const RESPONSE: &[u8] = b"HTTP/1.1 200 OK\r\nContent-type: text/plain\r\nExpires: Sat, 1 Jan 2000 00:00:00 GMT\r\nContent-Length: 13\r\n\r\nHello world!\n";

fn request() -> WSGIRequest {
    let mut req = WSGIRequest::new(16, String::new());
    req.append(RAW_REQUEST);
    req.parse_data();
    req
}

#[test]
fn test_pool_simple_blocking() {
    let app = FixedResponseHandler::new(RESPONSE.to_vec());
    let mut wp = WorkerPool::<BufferConnection>::new(
        "127.0.0.1".to_string(),
        "0".to_string(),
        "/foo".to_string(),
        app,
        write_blocking_worker::<BufferConnection, FixedResponseHandler>,
        2,
    );
    let token = 42;
    wp.execute(token, request(), None).unwrap();
    wp.execute(token, request(), None).unwrap();
    wp.execute(token, request(), None).unwrap();
    wp.execute(token, request(), None).unwrap();
    match wp.join() {
        Ok(_) => (),
        Err(_) => panic!(),
    }
}

#[test]
fn test_pool_simple_non_blocking() {
    let app = FixedResponseHandler::new(RESPONSE.to_vec());
    let mut wp = WorkerPool::<BufferConnection>::new(
        "127.0.0.1".to_string(),
        "0".to_string(),
        "/foo".to_string(),
        app,
        write_non_blocking_worker::<BufferConnection, FixedResponseHandler, SimPoller>,
        2,
    );
    let token = 42;
    wp.execute(token, request(), None).unwrap();
    wp.execute(token, request(), None).unwrap();
    wp.execute(token, request(), None).unwrap();
    wp.execute(token, request(), None).unwrap();
    match wp.join() {
        Ok(_) => (),
        Err(_) => panic!(),
    }
}

#[test]
fn test_single_request_blocking_path() {
    // One worker, one canonical request: the client side sees the status
    // line, the content type, the content length and the body.
    let app = FixedResponseHandler::new(RESPONSE.to_vec());
    let mut wp = WorkerPool::<BufferConnection>::new(
        "127.0.0.1".to_string(),
        "7878".to_string(),
        "/foo".to_string(),
        app,
        write_blocking_worker::<BufferConnection, FixedResponseHandler>,
        1,
    );
    let (mirror_tx, mirror_rx) = crossbeam_channel::unbounded::<(usize, Vec<u8>)>();
    let connection = BufferConnection::with_mirror(1, Vec::new(), mirror_tx);
    wp.execute(42, request(), Some(connection)).unwrap();
    wp.join().unwrap();
    let mut got: Vec<u8> = Vec::new();
    while let Ok((_, chunk)) = mirror_rx.try_recv() {
        got.extend_from_slice(&chunk);
    }
    assert!(got.starts_with(b"HTTP/1.1 200 OK\r\nContent-type: text/plain\r\n"));
    let text = String::from_utf8(got.clone()).unwrap();
    assert!(text.contains("Content-Length: 13"));
    assert!(got.ends_with(b"Hello world!\n"));
    assert_eq!(&got[..], RESPONSE);
}

#[test]
fn test_four_requests_two_workers() {
    // Four identical requests saturate a pool of two blocking workers; all
    // four responses arrive in full and join returns after the markers.
    let app = FixedResponseHandler::new(RESPONSE.to_vec());
    let mut wp = WorkerPool::<BufferConnection>::new(
        "127.0.0.1".to_string(),
        "0".to_string(),
        "/foo".to_string(),
        app,
        write_blocking_worker::<BufferConnection, FixedResponseHandler>,
        2,
    );
    let (mirror_tx, mirror_rx) = crossbeam_channel::unbounded::<(usize, Vec<u8>)>();
    for id in 0..4usize {
        let connection = BufferConnection::with_mirror(id, Vec::new(), mirror_tx.clone());
        wp.execute(id + 1, request(), Some(connection)).unwrap();
    }
    wp.join().unwrap();
    let mut per_id: Vec<Vec<u8>> = vec![Vec::new(), Vec::new(), Vec::new(), Vec::new()];
    let mut messages = 0usize;
    while let Ok((id, chunk)) = mirror_rx.try_recv() {
        per_id[id].extend_from_slice(&chunk);
        messages += 1;
    }
    assert_eq!(messages, 4);
    for bytes in per_id.iter() {
        assert_eq!(&bytes[..], RESPONSE);
    }
}

#[test]
fn test_shutdown_ordering() {
    // Ten real jobs, then join: every job completes before the workers go.
    let app = FixedResponseHandler::new(RESPONSE.to_vec());
    let mut wp = WorkerPool::<BufferConnection>::new(
        "127.0.0.1".to_string(),
        "0".to_string(),
        "/foo".to_string(),
        app,
        write_non_blocking_worker::<BufferConnection, FixedResponseHandler, SimPoller>,
        3,
    );
    let (mirror_tx, mirror_rx) = crossbeam_channel::unbounded::<(usize, Vec<u8>)>();
    for id in 0..10usize {
        let connection = BufferConnection::with_mirror(id, Vec::new(), mirror_tx.clone());
        wp.execute(id + 1, request(), Some(connection)).unwrap();
    }
    wp.join().unwrap();
    let mut per_id: Vec<Vec<u8>> = (0..10).map(|_| Vec::new()).collect();
    while let Ok((id, chunk)) = mirror_rx.try_recv() {
        per_id[id].extend_from_slice(&chunk);
    }
    for bytes in per_id.iter() {
        assert_eq!(&bytes[..], RESPONSE);
    }
}

#[test]
fn test_double_join() {
    // Joining twice must not hang or panic: the second call finds the
    // workers gone and fails cleanly.
    let app = FixedResponseHandler::new(RESPONSE.to_vec());
    let mut wp = WorkerPool::<BufferConnection>::new(
        "127.0.0.1".to_string(),
        "0".to_string(),
        "/foo".to_string(),
        app,
        write_blocking_worker::<BufferConnection, FixedResponseHandler>,
        2,
    );
    assert!(wp.join().is_ok());
    assert_eq!(wp.join(), Err(PoolError::Disconnected));
}
