//! Simple requests: from what the caller asks for to what is sent.

use vstd::prelude::*;
use crate::error::RequestError;
use crate::headers::{lemma_written_pair, pairs_of, Header, HeaderMap, Pair};
use crate::method::{method_named, parse_method, uppercase_of, Method};
use crate::text::text_of;

verus! {

/// Seconds after which a simple request is given up.
pub const REQUEST_TIMEOUT_SECS: u64 = 30;

/// A request as the caller states it. The method may be written in any letter
/// case; no body is not the same as an empty body.
#[derive(Debug)]
pub struct HttpRequest {
    pub method: String,
    pub url: String,
    pub headers: Option<HeaderMap>,
    pub body: Option<String>,
}

/// A request that is ready to be sent.
#[derive(Debug)]
pub struct RequestPlan {
    pub method: Method,
    pub url: String,
    /// The headers to apply, in order, each as given.
    pub headers: Vec<Header>,
    pub body: Option<String>,
    /// The deadline for the whole exchange.
    pub timeout_secs: u64,
}

/// The headers of a request in order; none where the caller gave none.
pub open spec fn header_order(headers: Option<HeaderMap>) -> Seq<Pair> {
    match headers {
        Some(map) => map.order(),
        None => Seq::empty(),
    }
}

/// True when the plan sends what the request asks for with the given method:
/// the same address, every header as given and in order, the body as given,
/// and the deadline of simple requests.
pub open spec fn carries_out(plan: RequestPlan, request: HttpRequest, method: Method) -> bool {
    &&& plan.method == method
    &&& plan.url@ == request.url@
    &&& pairs_of(plan.headers@) == header_order(request.headers)
    &&& text_of(plan.body) == text_of(request.body)
    &&& plan.timeout_secs == 30
}

/// Builds the plan for a request whose method has been read: `parsed` is the
/// method that the request names, or `None` where it names none. Without a
/// method the request is turned down, whatever else it holds.
pub fn plan_request(parsed: Option<Method>, request: HttpRequest) -> (result: Result<
    RequestPlan,
    RequestError,
>)
    ensures
        match parsed {
            Some(method) => result matches Ok(plan) && carries_out(plan, request, method),
            None => result matches Err(RequestError::UnsupportedMethod { method }) && method@
                == request.method@,
        },
{
    match parsed {
        Some(method) => {
            let headers = match request.headers {
                Some(map) => map.into_entries(),
                None => Vec::new(),
            };
            assert(request.headers is None ==> pairs_of(headers@) =~= Seq::<Pair>::empty());
            Ok(
                RequestPlan {
                    method,
                    url: request.url,
                    headers,
                    body: request.body,
                    timeout_secs: REQUEST_TIMEOUT_SECS,
                },
            )
        },
        None => Err(RequestError::UnsupportedMethod { method: request.method }),
    }
}

/// Validates a request and builds its plan. The method is read without regard
/// to letter case; a request with any other method is turned down before
/// anything is sent.
pub fn prepare_request(request: HttpRequest) -> (result: Result<RequestPlan, RequestError>)
    ensures
        match method_named(uppercase_of(request.method@)) {
            Some(method) => result matches Ok(plan) && carries_out(plan, request, method),
            None => result matches Err(RequestError::UnsupportedMethod { method }) && method@
                == request.method@,
        },
{
    let parsed = parse_method(request.method.as_str());
    plan_request(parsed, request)
}

/// Every header that the caller gave goes out with the request, under the
/// name and with the value as given.
pub proof fn lemma_headers_go_out(
    plan: RequestPlan,
    request: HttpRequest,
    method: Method,
    name: Seq<char>,
)
    requires
        carries_out(plan, request, method),
        request.headers is Some,
        request.headers->0.wf(),
        request.headers->0@.dom().contains(name),
    ensures
        pairs_of(plan.headers@).contains((name, request.headers->0@[name])),
{
    lemma_written_pair(request.headers->0.order(), name);
}

} // verus!
