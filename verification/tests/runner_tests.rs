use composition_harness::channel::new_response;
use composition_harness::fields::{Fields, HeaderError};
use composition_harness::headers::{ExpectedHeader, HeaderFailure};
use composition_harness::http::Method;
use composition_harness::response::{full, IncomingResponse};
use composition_harness::runner::{
    assess_response, build_fields, decode_body, prepare_request, ExpectedResponse, Invocation,
    RequestSpec, RunResult,
};

fn expected(status: u16, headers: Vec<ExpectedHeader>, body: Option<&str>) -> ExpectedResponse {
    ExpectedResponse { status, headers, body: body.map(|b| b.to_string()) }
}

fn header(name: &str, value: Option<&str>, optional: bool) -> ExpectedHeader {
    ExpectedHeader { name: name.to_string(), value: value.map(|v| v.to_string()), optional }
}

fn respond(status: u16, headers: Vec<(&str, &[u8])>, body: &[u8]) -> IncomingResponse {
    let mut fields = Fields::new();
    for (name, value) in headers {
        fields.append(&name.to_string(), &value.to_vec()).unwrap();
    }
    IncomingResponse::new(status, fields, full(body.to_vec()))
}

fn assess(exp: &ExpectedResponse, resp: IncomingResponse) -> RunResult {
    let mut rx = new_response();
    rx.produce(Ok(resp)).unwrap();
    assess_response(exp, &mut rx)
}

#[test]
fn echoed_request_passes() {
    let exp = expected(200, vec![header("x-test", Some("1"), false)], Some("ok"));
    let r = assess(&exp, respond(200, vec![("x-test", b"1")], b"ok"));
    assert!(matches!(r, RunResult::Pass));
}

#[test]
fn status_mismatch_carries_the_actual_body() {
    let exp = expected(200, vec![header("x-test", Some("1"), false)], Some("ok"));
    let r = assess(&exp, respond(500, vec![("x-test", b"1")], b"boom"));
    match r {
        RunResult::StatusMismatch { expected_status, actual_status, body } => {
            assert_eq!(expected_status, 200);
            assert_eq!(actual_status, 500);
            assert_eq!(body, "boom");
        },
        _ => panic!("expected a status mismatch"),
    }
}

#[test]
fn header_names_and_values_match_case_insensitively() {
    let exp = expected(200, vec![header("X-TeSt", Some("OK"), false)], None);
    let r = assess(&exp, respond(200, vec![("x-test", b"ok")], b""));
    assert!(matches!(r, RunResult::Pass));
}

#[test]
fn missing_required_header_fails() {
    let exp = expected(200, vec![header("x-test", Some("1"), false)], None);
    let r = assess(&exp, respond(200, vec![], b""));
    assert!(matches!(r, RunResult::HeaderMismatch(HeaderFailure::MissingRequired(_))));
}

#[test]
fn missing_optional_header_passes() {
    let exp = expected(200, vec![header("x-test", Some("1"), true)], None);
    let r = assess(&exp, respond(200, vec![], b""));
    assert!(matches!(r, RunResult::Pass));
}

#[test]
fn unexpected_actual_header_fails_even_when_rest_matches() {
    let exp = expected(200, vec![], Some("ok"));
    let r = assess(&exp, respond(200, vec![("x-extra", b"1")], b"ok"));
    assert!(matches!(r, RunResult::HeaderMismatch(HeaderFailure::UnexpectedHeaders(_))));
}

#[test]
fn header_value_mismatch_fails() {
    let exp = expected(200, vec![header("x-test", Some("1"), false)], None);
    let r = assess(&exp, respond(200, vec![("x-test", b"2")], b""));
    assert!(matches!(r, RunResult::HeaderMismatch(HeaderFailure::ValueMismatch(_))));
}

#[test]
fn expected_header_without_value_matches_any_value() {
    let exp = expected(200, vec![header("x-test", None, false)], None);
    let r = assess(&exp, respond(200, vec![("x-test", b"anything")], b""));
    assert!(matches!(r, RunResult::Pass));
}

#[test]
fn body_mismatch_is_reported_with_both_bodies() {
    let exp = expected(200, vec![], Some("ok"));
    let r = assess(&exp, respond(200, vec![], b"nope"));
    match r {
        RunResult::BodyMismatch { expected_body, actual_body } => {
            assert_eq!(expected_body, "ok");
            assert_eq!(actual_body, "nope");
        },
        _ => panic!("expected a body mismatch"),
    }
}

#[test]
fn undeclared_body_is_not_compared() {
    let exp = expected(200, vec![], None);
    let r = assess(&exp, respond(200, vec![], b"whatever"));
    assert!(matches!(r, RunResult::Pass));
}

#[test]
fn invalid_utf8_body_decodes_to_the_sentinel() {
    assert_eq!(decode_body(&vec![0xff, 0xfe]), "invalid utf-8");
    assert_eq!(decode_body(&b"plain".to_vec()), "plain");
    let exp = expected(200, vec![], Some("invalid utf-8"));
    let r = assess(&exp, respond(200, vec![], &[0xff, 0xfe]));
    assert!(matches!(r, RunResult::Pass));
}

#[test]
fn pending_receiver_is_reported_distinctly() {
    let exp = expected(200, vec![], None);
    let mut rx = new_response();
    assert!(matches!(assess_response(&exp, &mut rx), RunResult::StillPending));
}

#[test]
fn dropped_producer_fails_the_invocation_distinctly() {
    let exp = expected(200, vec![], None);
    let mut rx = new_response();
    rx.drop_producer();
    assert!(matches!(assess_response(&exp, &mut rx), RunResult::ProducerDropped));
}

#[test]
fn handler_error_fails_the_invocation() {
    let exp = expected(200, vec![], None);
    let mut rx = new_response();
    rx.produce(Err("no route".to_string())).unwrap();
    match assess_response(&exp, &mut rx) {
        RunResult::HandlerError(m) => assert_eq!(m, "no route"),
        _ => panic!("expected a handler error"),
    }
}

#[test]
fn build_fields_appends_in_order() {
    let headers = vec![("a".to_string(), "1".to_string()), ("b".to_string(), "2".to_string())];
    let fields = build_fields(&headers).unwrap();
    let entries = fields.entries();
    assert_eq!(entries[0].0, "a");
    assert_eq!(entries[1].1, b"2".to_vec());
}

#[test]
fn build_fields_aborts_on_the_first_bad_header() {
    let headers = vec![("ok".to_string(), "1".to_string()), ("bad name".to_string(), "2".to_string())];
    assert_eq!(build_fields(&headers).err(), Some(HeaderError::InvalidSyntax));
}

#[test]
fn prepare_request_builds_the_default_uri() {
    let inv = Invocation {
        request: RequestSpec {
            method: None,
            path: "/".to_string(),
            headers: vec![("x-test".to_string(), "1".to_string())],
        },
        response: expected(200, vec![], None),
    };
    let req = prepare_request(&inv).unwrap();
    assert_eq!(req.uri, "http://localhost:3000/");
    assert!(matches!(req.method, Method::Get));
    assert_eq!(req.body, Vec::<u8>::new());
    let entries = req.headers.entries();
    assert_eq!(entries[0].0, "x-test");
}

#[test]
fn prepare_request_uses_the_declared_method() {
    let inv = Invocation {
        request: RequestSpec { method: Some(Method::Post), path: "/".to_string(), headers: vec![] },
        response: expected(200, vec![], None),
    };
    let req = prepare_request(&inv).unwrap();
    assert!(matches!(req.method, Method::Post));
}

#[test]
fn prepare_request_rejects_bad_header_then_bad_path() {
    let bad_header = Invocation {
        request: RequestSpec {
            method: None,
            path: "/".to_string(),
            headers: vec![("bad name".to_string(), "1".to_string())],
        },
        response: expected(200, vec![], None),
    };
    assert!(matches!(
        prepare_request(&bad_header),
        Err(RunResult::BadRequestHeader(HeaderError::InvalidSyntax))
    ));
    let bad_path = Invocation {
        request: RequestSpec { method: None, path: "/a b".to_string(), headers: vec![] },
        response: expected(200, vec![], None),
    };
    assert!(matches!(prepare_request(&bad_path), Err(RunResult::InvalidRequestPath)));
    let bad_method = Invocation {
        request: RequestSpec {
            method: Some(Method::Other("BAD METHOD".to_string())),
            path: "/".to_string(),
            headers: vec![],
        },
        response: expected(200, vec![], None),
    };
    assert!(matches!(prepare_request(&bad_method), Err(RunResult::InvalidRequestMethod)));
}

#[test]
fn consumed_body_fails_the_assessment_explicitly() {
    let exp = expected(200, vec![], None);
    let mut resp = respond(200, vec![], b"ok");
    let _ = resp.consume().unwrap();
    let mut rx = new_response();
    rx.produce(Ok(resp)).unwrap();
    assert!(matches!(assess_response(&exp, &mut rx), RunResult::BodyUnavailable));
}

#[test]
fn duplicate_actual_headers_collapse_to_the_last_value() {
    let exp = expected(200, vec![header("x-test", Some("2"), false)], None);
    let r = assess(&exp, respond(200, vec![("x-test", b"1"), ("X-Test", b"2")], b""));
    assert!(matches!(r, RunResult::Pass));
}
