use composition_harness::fields::Fields;
use composition_harness::http::{IncomingRequest, Method, OutgoingRequest, RequestError, Scheme};
use composition_harness::response::{empty, full};

#[test]
fn outgoing_request_defaults() {
    let req = OutgoingRequest::new(Fields::new());
    assert!(matches!(req.method, Method::Get));
    assert!(req.scheme.is_none());
    assert!(req.authority.is_none());
    assert!(req.path_with_query.is_none());
    assert!(req.body.is_none());
}

#[test]
fn conversion_applies_authority_and_path_defaults() {
    let mut req = OutgoingRequest::new(Fields::new());
    let inc = IncomingRequest::new(&mut req).unwrap();
    assert_eq!(inc.uri, "http://localhost:3000/");
}

#[test]
fn conversion_uses_declared_scheme_authority_and_path() {
    let mut req = OutgoingRequest::new(Fields::new());
    req.scheme = Some(Scheme::Other("ftp".to_string()));
    req.authority = Some("example.com:1234".to_string());
    req.set_path_with_query(Some("/x?q=1")).unwrap();
    let inc = IncomingRequest::new(&mut req).unwrap();
    assert_eq!(inc.uri, "ftp://example.com:1234/x?q=1");
}

#[test]
fn conversion_maps_https_scheme() {
    let mut req = OutgoingRequest::new(Fields::new());
    req.scheme = Some(Scheme::Https);
    let inc = IncomingRequest::new(&mut req).unwrap();
    assert_eq!(inc.uri, "https://localhost:3000/");
}

#[test]
fn set_path_with_query_rejects_space() {
    let mut req = OutgoingRequest::new(Fields::new());
    assert_eq!(req.set_path_with_query(Some("/a b")), Err(()));
    assert!(req.path_with_query.is_none());
}

#[test]
fn conversion_copies_headers_verbatim() {
    let mut fields = Fields::new();
    fields.append(&"X-Test".to_string(), &b"1".to_vec()).unwrap();
    let mut req = OutgoingRequest::new(fields);
    let inc = IncomingRequest::new(&mut req).unwrap();
    let entries = inc.headers.entries();
    assert_eq!(entries.len(), 1);
    assert_eq!(entries[0].0, "X-Test");
    assert_eq!(entries[0].1, b"1".to_vec());
}

#[test]
fn conversion_transfers_body_ownership_once() {
    let mut req = OutgoingRequest::new(Fields::new());
    req.body = Some(b"payload".to_vec());
    let inc = IncomingRequest::new(&mut req).unwrap();
    assert_eq!(inc.body, b"payload".to_vec());
    assert!(req.body.is_none());
    let second = IncomingRequest::new(&mut req).unwrap();
    assert_eq!(second.body, Vec::<u8>::new());
}

#[test]
fn conversion_rejects_invalid_custom_method() {
    let mut req = OutgoingRequest::new(Fields::new());
    req.method = Method::Other("BAD METHOD".to_string());
    assert_eq!(IncomingRequest::new(&mut req).err(), Some(RequestError::InvalidMethod));
}

#[test]
fn empty_body_reads_no_bytes() {
    let mut body = empty();
    let mut stream = body.stream().unwrap();
    assert_eq!(stream.blocking_read(u64::MAX), Vec::<u8>::new());
}

#[test]
fn full_body_reads_all_bytes() {
    let mut body = full(b"hello".to_vec());
    let mut stream = body.stream().unwrap();
    assert_eq!(stream.blocking_read(u64::MAX), b"hello".to_vec());
}

#[test]
fn blocking_read_respects_the_limit() {
    let mut body = full(b"hello".to_vec());
    let mut stream = body.stream().unwrap();
    assert_eq!(stream.blocking_read(3), b"hel".to_vec());
    assert_eq!(stream.blocking_read(u64::MAX), b"lo".to_vec());
}

#[test]
fn body_stream_is_acquirable_at_most_once() {
    let mut body = full(b"x".to_vec());
    assert!(body.stream().is_ok());
    assert_eq!(body.stream().err(), Some(()));
}
