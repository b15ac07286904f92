use request_executor::error::RequestError;
use request_executor::headers::HeaderMap;
use request_executor::method::Method;
use request_executor::request::{plan_request, prepare_request, HttpRequest, REQUEST_TIMEOUT_SECS};

fn request(method: &str) -> HttpRequest {
    HttpRequest {
        method: method.to_string(),
        url: "http://example.test/ok".to_string(),
        headers: None,
        body: None,
    }
}

#[test]
fn lower_case_get_is_planned() {
    let plan = prepare_request(request("get")).expect("get is a method");
    assert_eq!(plan.method, Method::Get);
    assert_eq!(plan.url, "http://example.test/ok");
    assert!(plan.headers.is_empty());
    assert_eq!(plan.body, None);
    assert_eq!(plan.timeout_secs, 30);
    assert_eq!(REQUEST_TIMEOUT_SECS, 30);
}

#[test]
fn headers_go_out_as_given_and_in_order() {
    let mut headers = HeaderMap::new();
    headers.insert("X-Trace".to_string(), "abc".to_string());
    headers.insert("Content-Type".to_string(), "application/json".to_string());
    headers.insert("accept".to_string(), "*/*".to_string());
    let mut asked = request("POST");
    asked.headers = Some(headers);
    asked.body = Some("{}".to_string());
    let plan = prepare_request(asked).expect("post is a method");
    assert_eq!(plan.method, Method::Post);
    let sent: Vec<(String, String)> =
        plan.headers.iter().map(|h| (h.name.clone(), h.value.clone())).collect();
    assert_eq!(
        sent,
        vec![
            ("X-Trace".to_string(), "abc".to_string()),
            ("Content-Type".to_string(), "application/json".to_string()),
            ("accept".to_string(), "*/*".to_string()),
        ]
    );
    assert_eq!(plan.body, Some("{}".to_string()));
}

#[test]
fn empty_body_is_not_the_same_as_no_body() {
    let mut asked = request("put");
    asked.body = Some(String::new());
    let plan = prepare_request(asked).expect("put is a method");
    assert_eq!(plan.body, Some(String::new()));
    let plan = prepare_request(request("put")).expect("put is a method");
    assert_eq!(plan.body, None);
}

#[test]
fn unknown_method_is_turned_down() {
    match prepare_request(request("Trace")) {
        Err(RequestError::UnsupportedMethod { method }) => assert_eq!(method, "Trace"),
        other => panic!("expected an unsupported method, got {:?}", other),
    }
}

#[test]
fn unsupported_method_message() {
    let error = prepare_request(request("FETCH")).expect_err("fetch is no method");
    assert_eq!(error.message(), "Unsupported method: FETCH");
    let error = RequestError::MultipartUnsupported { method: "get".to_string() };
    assert_eq!(error.message(), "Multipart not supported for method: get");
}

#[test]
fn plan_follows_the_method_that_was_read() {
    let plan = plan_request(Some(Method::Delete), request("whatever")).expect("a method is given");
    assert_eq!(plan.method, Method::Delete);
    match plan_request(None, request("GET")) {
        Err(RequestError::UnsupportedMethod { method }) => assert_eq!(method, "GET"),
        other => panic!("expected an unsupported method, got {:?}", other),
    }
}
