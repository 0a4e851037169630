use bytes::Bytes;
use http_service::Body;
use std::io::{Error, ErrorKind};

#[test]
fn round_trip_vec() {
    let body = Body::from_vec(b"some owned buffer".to_vec());
    let out = body.into_vec().unwrap();
    assert_eq!(out, b"some owned buffer".to_vec());
}

#[test]
fn round_trip_string() {
    let body = Body::from_string(String::from("Hello, World"));
    let out = body.into_vec().unwrap();
    assert_eq!(out, b"Hello, World".to_vec());
}

#[test]
fn round_trip_chunk() {
    let chunk = Bytes::from(vec![1u8, 2, 3, 255, 0]);
    let body = Body::from_chunk(chunk);
    let out = body.into_vec().unwrap();
    assert_eq!(out, vec![1u8, 2, 3, 255, 0]);
}

#[test]
fn empty_yields_zero_bytes_without_error() {
    let body = Body::empty();
    let out = body.into_vec().unwrap();
    assert_eq!(out.len(), 0);
}

#[test]
fn empty_yields_no_chunk() {
    let mut body = Body::empty();
    assert!(body.poll_next().is_none());
    assert!(body.poll_next().is_none());
}

#[test]
fn from_stream_concatenates_in_order() {
    let chunks = vec![
        Ok(Bytes::from(b"Hello, ".to_vec())),
        Ok(Bytes::from(b"Wo".to_vec())),
        Ok(Bytes::from(b"".to_vec())),
        Ok(Bytes::from(b"rld".to_vec())),
    ];
    let body = Body::from_stream(chunks);
    let out = body.into_vec().unwrap();
    assert_eq!(out, b"Hello, World".to_vec());
}

#[test]
fn error_mid_stream_fails_the_drain() {
    let items = vec![
        Ok(Bytes::from(b"partial ".to_vec())),
        Ok(Bytes::from(b"bytes".to_vec())),
        Err(Error::new(ErrorKind::ConnectionReset, "wire dropped")),
        Ok(Bytes::from(b"never seen".to_vec())),
    ];
    let body = Body::from_stream(items);
    let out = body.into_vec();
    let err = out.unwrap_err();
    assert_eq!(err.kind(), ErrorKind::ConnectionReset);
    assert_eq!(err.to_string(), "wire dropped");
}

#[test]
fn error_first_fails_the_drain() {
    let items = vec![
        Err(Error::new(ErrorKind::UnexpectedEof, "no bytes at all")),
    ];
    let body = Body::from_stream(items);
    let err = body.into_vec().unwrap_err();
    assert_eq!(err.kind(), ErrorKind::UnexpectedEof);
}

#[test]
fn poll_yields_chunks_in_order_then_stops() {
    let items = vec![
        Ok(Bytes::from(b"one".to_vec())),
        Ok(Bytes::from(b"two".to_vec())),
    ];
    let mut body = Body::from_stream(items);
    let first = body.poll_next().unwrap().unwrap();
    assert_eq!(first.as_ref(), b"one");
    let second = body.poll_next().unwrap().unwrap();
    assert_eq!(second.as_ref(), b"two");
    assert!(body.poll_next().is_none());
    assert!(body.poll_next().is_none());
}

#[test]
fn no_pull_after_an_error() {
    let items = vec![
        Ok(Bytes::from(b"head".to_vec())),
        Err(Error::new(ErrorKind::BrokenPipe, "gone")),
        Ok(Bytes::from(b"tail".to_vec())),
    ];
    let mut body = Body::from_stream(items);
    let first = body.poll_next().unwrap().unwrap();
    assert_eq!(first.as_ref(), b"head");
    let second = body.poll_next().unwrap();
    assert_eq!(second.unwrap_err().kind(), ErrorKind::BrokenPipe);
    assert!(body.poll_next().is_none());
    assert!(body.poll_next().is_none());
}

#[test]
fn chunks_share_their_buffer() {
    let chunk = Bytes::from(b"shared backing".to_vec());
    let other = chunk.clone();
    let body = Body::from_chunk(chunk);
    let out = body.into_vec().unwrap();
    assert_eq!(out.as_slice(), other.as_ref());
}
