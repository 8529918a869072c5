use vstd::prelude::*;
use vstd::string::StringExecFns;
use vstd::string::StrSliceExecFns;
use vstd::utf8::valid_utf8;
use vstd::utf8::decode_utf8;
use vstd::utf8::encode_utf8;
use crate::fields::Fields;
use crate::fields::HeaderError;
use crate::fields::valid_header_name;
use crate::fields::valid_header_value;
use crate::headers::ExpectedHeader;
use crate::headers::HeaderFailure;
use crate::headers::headers_match;
use crate::headers::check_headers;
use crate::http::Method;
use crate::http::IncomingRequest;
use crate::http::OutgoingRequest;
use crate::http::valid_method;
use crate::http::valid_path_with_query;
use crate::http::spec_uri;
use crate::channel::ResponseReceiver;
use crate::channel::ReceiverState;
use crate::response::IncomingResponse;

verus! {

/// Relies on `String::from_utf8`: succeeds exactly on valid UTF-8 input,
/// returning the string those bytes encode.
#[verifier::external_body]
fn utf8_to_string(bytes: &Vec<u8>) -> (r: Option<String>)
    ensures
        r is Some <==> valid_utf8(bytes@),
        r matches Some(s) ==> s@ == decode_utf8(bytes@),
{
    String::from_utf8(bytes.clone()).ok()
}

/// The text a body decodes to: its UTF-8 reading, or the literal sentinel
/// `invalid utf-8` when the bytes are not valid UTF-8.
pub open spec fn decoded_text(b: Seq<u8>) -> Seq<char> {
    if valid_utf8(b) {
        decode_utf8(b)
    } else {
        "invalid utf-8"@
    }
}

/// Decodes a response body for comparison and diagnosis; invalid byte
/// sequences become the literal sentinel rather than a decode failure.
pub fn decode_body(bytes: &Vec<u8>) -> (r: String)
    ensures
        r@ == decoded_text(bytes@),
{
    match utf8_to_string(bytes) {
        Some(s) => s,
        None => String::from_str("invalid utf-8"),
    }
}

/// The declared request of one invocation.
pub struct RequestSpec {
    pub method: Option<Method>,
    pub path: String,
    pub headers: Vec<(String, String)>,
}

/// The expected response of one invocation.
pub struct ExpectedResponse {
    pub status: u16,
    pub headers: Vec<ExpectedHeader>,
    pub body: Option<String>,
}

/// One declared request with its expected response.
pub struct Invocation {
    pub request: RequestSpec,
    pub response: ExpectedResponse,
}

/// The fields a declared header list builds: names as given, values as
/// their UTF-8 bytes.
pub open spec fn built_fields(hs: Seq<(String, String)>) -> Seq<(Seq<char>, Seq<u8>)> {
    hs.map_values(|h: (String, String)| (h.0@, encode_utf8(h.1@)))
}

/// Every declared header passes the append grammar.
pub open spec fn request_headers_valid(hs: Seq<(String, String)>) -> bool {
    forall|i: int|
        0 <= i < hs.len() ==> valid_header_name((#[trigger] hs[i]).0@) && valid_header_value(
            encode_utf8(hs[i].1@),
        )
}

/// Builds the request headers, appending in order; the first failing
/// append aborts the build.
pub fn build_fields(headers: &Vec<(String, String)>) -> (r: Result<Fields, HeaderError>)
    ensures
        r is Ok <==> request_headers_valid(headers@),
        r matches Ok(f) ==> f@ == built_fields(headers@),
        r matches Err(e) ==> e == HeaderError::InvalidSyntax,
{
    let mut f = Fields::new();
    let mut i: usize = 0;
    while i < headers.len()
        invariant
            i <= headers@.len(),
            f@ == built_fields(headers@).take(i as int),
            forall|j: int|
                0 <= j < i ==> valid_header_name((#[trigger] headers@[j]).0@)
                    && valid_header_value(encode_utf8(headers@[j].1@)),
        decreases headers@.len() - i,
    {
        let h = &headers[i];
        let value = h.1.as_str().as_bytes_vec();
        let res = f.append(&h.0, &value);
        match res {
            Ok(()) => {
                proof {
                    assert(f@ =~= built_fields(headers@).take(i + 1));
                }
                i = i + 1;
            },
            Err(e) => {
                return Err(e);
            },
        }
    }
    proof {
        assert(f@ =~= built_fields(headers@));
    }
    Ok(f)
}

/// The method a request resolves to: the declared one, or GET.
pub open spec fn method_or_get(m: Option<Method>) -> Method {
    match m {
        Some(x) => x,
        None => Method::Get,
    }
}

/// A declared request is valid: its headers pass the append grammar, its
/// path is a valid path-with-query, and its method is valid.
pub open spec fn request_valid(r: RequestSpec) -> bool {
    &&& request_headers_valid(r.headers@)
    &&& valid_path_with_query(r.path@)
    &&& valid_method(method_or_get(r.method))
}

/// The outcome of one invocation, each failure distinct.
#[derive(Debug)]
pub enum RunResult {
    /// Every assertion held.
    Pass,
    /// Building the request headers failed.
    BadRequestHeader(HeaderError),
    /// The declared path is not a valid path-with-query.
    InvalidRequestPath,
    /// The declared method is not valid.
    InvalidRequestMethod,
    /// The receiver was still pending when assessed.
    StillPending,
    /// The handler path exited without ever producing a response.
    ProducerDropped,
    /// The handler delivered an error instead of a response.
    HandlerError(String),
    /// The one response was already retrieved.
    AlreadyRetrieved,
    /// The response body was already consumed.
    BodyUnavailable,
    /// The response body stream was already taken.
    StreamUnavailable,
    /// The status differed; the actual decoded body is carried for
    /// diagnosis.
    StatusMismatch { expected_status: u16, actual_status: u16, body: String },
    /// The header assertion failed.
    HeaderMismatch(HeaderFailure),
    /// The declared body differed from the actual decoded body.
    BodyMismatch { expected_body: String, actual_body: String },
}

/// Builds the host-native request an invocation declares: headers appended
/// in order, the declared path, the declared method or GET, the default
/// scheme and authority, and no body.
pub fn prepare_request(inv: &Invocation) -> (r: Result<IncomingRequest, RunResult>)
    ensures
        r is Ok <==> request_valid(inv.request),
        r matches Ok(req) ==> {
            &&& req.method == method_or_get(inv.request.method)
            &&& req.uri@ == spec_uri(None, None, Some(inv.request.path@))
            &&& req.headers@ == built_fields(inv.request.headers@)
            &&& req.body@ == Seq::<u8>::empty()
        },
        r matches Err(e) ==> {
            &&& (e matches RunResult::BadRequestHeader(h) <==> !request_headers_valid(
                inv.request.headers@,
            ))
            &&& (e matches RunResult::BadRequestHeader(h) ==> h == HeaderError::InvalidSyntax)
            &&& (e is InvalidRequestPath <==> request_headers_valid(inv.request.headers@)
                && !valid_path_with_query(inv.request.path@))
            &&& (e is InvalidRequestMethod <==> request_headers_valid(inv.request.headers@)
                && valid_path_with_query(inv.request.path@) && !valid_method(
                method_or_get(inv.request.method),
            ))
        },
{
    let fields = match build_fields(&inv.request.headers) {
        Ok(f) => f,
        Err(e) => {
            return Err(RunResult::BadRequestHeader(e));
        },
    };
    let mut outgoing = OutgoingRequest::new(fields);
    match outgoing.set_path_with_query(Some(inv.request.path.as_str())) {
        Ok(()) => {},
        Err(()) => {
            return Err(RunResult::InvalidRequestPath);
        },
    }
    match &inv.request.method {
        Some(m) => {
            let dup = crate::http::duplicate_method(m);
            match outgoing.set_method(dup) {
                Ok(()) => {},
                Err(()) => {
                    return Err(RunResult::InvalidRequestMethod);
                },
            }
        },
        None => {},
    }
    match IncomingRequest::new(&mut outgoing) {
        Ok(req) => Ok(req),
        Err(_) => Err(RunResult::InvalidRequestMethod),
    }
}

/// The decoded body carried by a response whose body and stream are still
/// in place.
pub open spec fn response_body_text(resp: IncomingResponse) -> Seq<char> {
    decoded_text(resp.body->Some_0.stream->Some_0.data@)
}

/// A delivered response passes an expected one: its body is present, the
/// status is equal, the headers match case-insensitively under the
/// optional/value rules with none left over, and the declared body, if
/// any, equals the decoded actual body.
pub open spec fn response_passes(exp: ExpectedResponse, resp: IncomingResponse) -> bool {
    &&& resp.body matches Some(b) && b.stream is Some
    &&& resp.status == exp.status
    &&& headers_match(exp.headers@, resp.headers@)
    &&& (match exp.body {
        Some(eb) => response_body_text(resp) == eb@,
        None => true,
    })
}

/// Polls the receiver once and asserts the delivered response against the
/// expectation; the retry loop that waits for a terminal state belongs to
/// the host driver, which polls until the result is no longer pending.
///
/// A pending slot, a dropped producer, a handler error and an already
/// retrieved response are reported as distinct outcomes; a delivered
/// response passes exactly when `response_passes` holds of it, and each
/// failing assertion is reported distinctly, carrying the actual decoded
/// body where it aids diagnosis.
pub fn assess_response(exp: &ExpectedResponse, rx: &mut ResponseReceiver) -> (r: RunResult)
    ensures
        old(rx).state is Pending ==> r is StillPending,
        old(rx).state is ProducerDropped ==> r is ProducerDropped,
        old(rx).state is Consumed ==> r is AlreadyRetrieved,
        old(rx).state matches ReceiverState::Ready(Err(m)) ==> r
            == RunResult::HandlerError(m),
        old(rx).state matches ReceiverState::Ready(Ok(resp)) ==> {
            &&& (r is Pass <==> response_passes(*exp, resp))
            &&& (r is BodyUnavailable <==> resp.body is None)
            &&& (r is StreamUnavailable <==> (resp.body matches Some(b) && b.stream is None))
            &&& (r is StatusMismatch <==> ((resp.body matches Some(b) && b.stream is Some)
                && resp.status != exp.status))
            &&& (r matches RunResult::StatusMismatch { expected_status, actual_status, body }
                ==> expected_status == exp.status && actual_status == resp.status && body@
                == response_body_text(resp))
            &&& (r is HeaderMismatch <==> ((resp.body matches Some(b) && b.stream is Some)
                && resp.status == exp.status && !headers_match(exp.headers@, resp.headers@)))
            &&& (r is BodyMismatch <==> ((resp.body matches Some(b) && b.stream is Some)
                && resp.status == exp.status && headers_match(exp.headers@, resp.headers@)
                && (exp.body matches Some(eb) && response_body_text(resp) != eb@)))
            &&& (r matches RunResult::BodyMismatch { expected_body, actual_body } ==> exp.body
                == Some(expected_body) && actual_body@ == response_body_text(resp))
        },
{
    let polled = rx.get();
    let mut resp = match polled {
        Ok(Some(resp)) => resp,
        Ok(None) => {
            return RunResult::StillPending;
        },
        Err(crate::channel::ChannelError::ProducerDropped) => {
            return RunResult::ProducerDropped;
        },
        Err(crate::channel::ChannelError::Handler(m)) => {
            return RunResult::HandlerError(m);
        },
        Err(crate::channel::ChannelError::AlreadyRetrieved) => {
            return RunResult::AlreadyRetrieved;
        },
    };
    let ghost orig = old(rx).state->Ready_0->Ok_0;
    proof {
        assert(resp == orig);
    }
    let mut body = match resp.consume() {
        Ok(b) => b,
        Err(()) => {
            return RunResult::BodyUnavailable;
        },
    };
    let ghost body0 = body;
    let mut stream = match body.stream() {
        Ok(s) => s,
        Err(()) => {
            return RunResult::StreamUnavailable;
        },
    };
    let ghost stream0 = stream;
    proof {
        assert(orig.body == Some(body0));
        assert(body0.stream == Some(stream0));
    }
    let bytes = stream.blocking_read(u64::MAX);
    proof {
        assert(stream0.data@.len() <= usize::MAX);
        assert(!((u64::MAX as int) < stream0.data@.len()));
        assert(bytes@ =~= stream0.data@.take(stream0.data@.len() as int));
        assert(bytes@ =~= orig.body->Some_0.stream->Some_0.data@);
    }
    let body_text = decode_body(&bytes);
    if resp.status != exp.status {
        return RunResult::StatusMismatch {
            expected_status: exp.status,
            actual_status: resp.status,
            body: body_text,
        };
    }
    match check_headers(&exp.headers, &resp.headers) {
        Ok(()) => {},
        Err(f) => {
            return RunResult::HeaderMismatch(f);
        },
    }
    match &exp.body {
        Some(eb) => {
            if body_text.eq(eb) {
                RunResult::Pass
            } else {
                let expected_body = eb.clone();
                RunResult::BodyMismatch { expected_body, actual_body: body_text }
            }
        },
        None => RunResult::Pass,
    }
}

} // verus!
