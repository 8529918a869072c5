use composition_harness::channel::{new_response, ChannelError};
use composition_harness::fields::Fields;
use composition_harness::response::{full, IncomingResponse};

fn sample_response() -> IncomingResponse {
    IncomingResponse::new(200, Fields::new(), full(b"ok".to_vec()))
}

#[test]
fn poll_before_production_is_pending() {
    let mut rx = new_response();
    assert!(matches!(rx.get(), Ok(None)));
    assert!(matches!(rx.get(), Ok(None)));
}

#[test]
fn poll_after_production_yields_the_value_once() {
    let mut rx = new_response();
    rx.produce(Ok(sample_response())).unwrap();
    let first = rx.get();
    match first {
        Ok(Some(resp)) => assert_eq!(resp.status(), 200),
        _ => panic!("expected the produced response"),
    }
    assert!(matches!(rx.get(), Err(ChannelError::AlreadyRetrieved)));
}

#[test]
fn dropped_producer_is_distinct_from_pending() {
    let mut rx = new_response();
    rx.drop_producer();
    assert!(matches!(rx.get(), Err(ChannelError::ProducerDropped)));
    assert!(matches!(rx.get(), Err(ChannelError::ProducerDropped)));
}

#[test]
fn production_happens_at_most_once() {
    let mut rx = new_response();
    rx.produce(Ok(sample_response())).unwrap();
    assert_eq!(rx.produce(Ok(sample_response())), Err(()));
}

#[test]
fn production_after_drop_fails() {
    let mut rx = new_response();
    rx.drop_producer();
    assert_eq!(rx.produce(Ok(sample_response())), Err(()));
    assert!(matches!(rx.get(), Err(ChannelError::ProducerDropped)));
}

#[test]
fn produced_handler_error_is_reported() {
    let mut rx = new_response();
    rx.produce(Err("handler exploded".to_string())).unwrap();
    match rx.get() {
        Err(ChannelError::Handler(m)) => assert_eq!(m, "handler exploded"),
        _ => panic!("expected a handler error"),
    }
}

#[test]
fn response_body_is_consumable_at_most_once() {
    let mut resp = sample_response();
    assert!(resp.consume().is_ok());
    assert_eq!(resp.consume().err(), Some(()));
}
