use leptos_wasi::body::{body_within_limit, read_failure_response};
use leptos_wasi::{Body, BodyCollector, PresetResponse, WasiBuf, MAX_REQUEST_BODY_SIZE};

#[test]
fn buffer_reads_from_the_front() {
    let mut buf = WasiBuf(b"hello world".to_vec());
    assert_eq!(buf.remaining(), 11);
    buf.advance(6);
    assert_eq!(buf.remaining(), 5);
    assert_eq!(buf.chunk(), b"world");
    buf.advance(5);
    assert_eq!(buf.remaining(), 0);
    assert_eq!(buf.chunk(), b"");
}

#[test]
fn buffer_gives_back_what_is_left() {
    let mut buf = WasiBuf(vec![1, 2, 3, 4]);
    buf.advance(1);
    let rest: Vec<u8> = buf.clone().into();
    assert_eq!(rest, vec![2, 3, 4]);
    assert_eq!(buf.into_inner(), vec![2, 3, 4]);
}

#[test]
fn two_advances_equal_one() {
    let mut a = WasiBuf(b"abcdefgh".to_vec());
    let mut b = a.clone();
    a.advance(2);
    a.advance(3);
    b.advance(5);
    assert_eq!(a.chunk(), b.chunk());
}

#[test]
fn body_at_the_limit_fits() {
    assert!(body_within_limit(MAX_REQUEST_BODY_SIZE));
    assert!(!body_within_limit(MAX_REQUEST_BODY_SIZE + 1));
    assert!(body_within_limit(15 * 1024 * 1024));
    assert!(!body_within_limit(17 * 1024 * 1024));
}

#[test]
fn collector_refuses_the_chunk_that_crosses_the_limit() {
    let mut c = BodyCollector::new();
    let big = vec![b'a'; MAX_REQUEST_BODY_SIZE - 3];
    assert!(c.push_chunk(&big));
    assert!(c.push_chunk(b"abc"));
    assert!(!c.push_chunk(b"d"));
    assert!(c.push_chunk(b""));
    let bytes = c.into_bytes();
    assert_eq!(bytes.len(), MAX_REQUEST_BODY_SIZE);
    assert_eq!(&bytes[bytes.len() - 3..], b"abc");
}

#[test]
fn collector_keeps_chunks_in_order() {
    let mut c = BodyCollector::new();
    assert!(c.push_chunk(b"{\"msg\": "));
    assert!(c.push_chunk(b"\"hello\"}"));
    assert_eq!(c.into_bytes(), b"{\"msg\": \"hello\"}".to_vec());
}

#[test]
fn unreadable_body_is_a_bad_request() {
    let p: PresetResponse<()> = read_failure_response("connection reset");
    assert_eq!(p.status, 400);
    match p.body {
        Body::Sync(b) => assert_eq!(b, b"Failed to read request body: connection reset".to_vec()),
        Body::Async(_) => panic!("expected a body known in full"),
    }
}
