use request_executor::headers::HeaderMap;
use request_executor::response::{
    collect_headers, normalize, HttpResponse, RawHeader, StatusCode, TransportOutcome,
};
use request_executor::timing::TimingBreakdown;

fn raw(name: &str, value: &[u8]) -> RawHeader {
    RawHeader { name: name.to_string(), value: value.to_vec() }
}

fn status(code: u16) -> StatusCode {
    match StatusCode::from_u16(code) {
        Some(status) => status,
        None => panic!("{} is no status", code),
    }
}

fn answered(code: u16, headers: Vec<RawHeader>, body: &str) -> TransportOutcome {
    TransportOutcome::Answered {
        status: status(code),
        headers,
        body: body.to_string(),
        window: 20,
        download: 1,
    }
}

#[test]
fn status_codes_have_three_digits() {
    assert!(StatusCode::from_u16(0).is_none());
    assert!(StatusCode::from_u16(99).is_none());
    assert!(StatusCode::from_u16(1000).is_none());
    assert!(StatusCode::from_u16(u16::MAX).is_none());
    assert_eq!(status(100).as_u16(), 100);
    assert_eq!(status(200).as_u16(), 200);
    assert_eq!(status(999).as_u16(), 999);
}

#[test]
fn answer_of_200_with_body_hi() {
    let outcome = answered(200, vec![raw("content-type", b"text/plain")], "hi");
    let response = normalize(outcome, 25);
    assert_eq!(response.status, 200);
    assert_eq!(response.status_text, "OK");
    assert_eq!(response.body, "hi");
    assert_eq!(response.size, 2);
    assert_eq!(response.error, None);
    assert_eq!(response.duration, 25);
    assert_eq!(response.timing, TimingBreakdown { connect: 8, ttfb: 12, download: 1, total: 25 });
    assert!(response.timing.total >= response.timing.ttfb + response.timing.download);
    assert_eq!(response.headers.get("content-type"), Some(&"text/plain".to_string()));
    assert!(!response.is_error());
}

#[test]
fn reason_phrases_come_from_the_status() {
    assert_eq!(normalize(answered(404, vec![], ""), 21).status_text, "Not Found");
    assert_eq!(normalize(answered(201, vec![], ""), 21).status_text, "Created");
    assert_eq!(normalize(answered(500, vec![], ""), 21).status_text, "Internal Server Error");
}

#[test]
fn status_without_reason_has_empty_text() {
    let response = normalize(answered(299, vec![], "x"), 21);
    assert_eq!(response.status, 299);
    assert_eq!(response.status_text, "");
    assert_eq!(response.error, None);
    let response = normalize(answered(999, vec![], "x"), 21);
    assert_eq!(response.status_text, "");
}

#[test]
fn empty_body_of_an_answer_is_no_error() {
    let response = normalize(answered(204, vec![], ""), 21);
    assert_eq!(response.status, 204);
    assert_eq!(response.body, "");
    assert_eq!(response.size, 0);
    assert_eq!(response.error, None);
}

#[test]
fn size_counts_bytes_not_characters() {
    let response = normalize(answered(200, vec![], "h\u{e9}llo \u{1f600}"), 21);
    assert_eq!(response.size, 11);
    assert_eq!(response.size, response.body.len());
}

#[test]
fn transport_failure_is_reported_as_data() {
    let outcome = TransportOutcome::Failed { message: "operation timed out".to_string() };
    let response = normalize(outcome, 30_000);
    assert_eq!(response.status, 0);
    assert_eq!(response.status_text, "Error");
    assert!(response.headers.is_empty());
    assert_eq!(response.body, "");
    assert_eq!(response.size, 0);
    assert_eq!(response.duration, 30_000);
    assert_eq!(response.error, Some("operation timed out".to_string()));
    assert_eq!(
        response.timing,
        TimingBreakdown { connect: 0, ttfb: 0, download: 0, total: 30_000 }
    );
    assert!(response.is_error());
}

#[test]
fn error_is_set_exactly_when_status_is_zero() {
    let outcomes = vec![
        answered(100, vec![], ""),
        answered(200, vec![raw("a", b"b")], "body"),
        answered(404, vec![], "missing"),
        answered(999, vec![], ""),
        TransportOutcome::Failed { message: String::new() },
        TransportOutcome::Failed { message: "connection refused".to_string() },
    ];
    for outcome in outcomes {
        let response = normalize(outcome, 12);
        assert_eq!(response.error.is_some(), response.status == 0);
        if response.error.is_some() {
            assert!(response.headers.is_empty());
            assert!(response.body.is_empty());
            assert_eq!(response.size, 0);
        }
        assert_eq!(response.size, response.body.len());
    }
}

#[test]
fn header_values_that_are_no_text_are_dropped() {
    let headers = vec![
        raw("x-good", b"plain value"),
        raw("x-latin", &[b'c', b'a', b'f', 0xe9]),
        raw("x-tab", b"a\tb"),
        raw("x-control", &[b'a', 0x01]),
        raw("x-delete", &[0x7f]),
        raw("x-empty", b""),
    ];
    let map = collect_headers(&headers);
    assert_eq!(map.len(), 3);
    assert_eq!(map.get("x-good"), Some(&"plain value".to_string()));
    assert_eq!(map.get("x-tab"), Some(&"a\tb".to_string()));
    assert_eq!(map.get("x-empty"), Some(&String::new()));
    assert_eq!(map.get("x-latin"), None);
    assert_eq!(map.get("x-control"), None);
    assert_eq!(map.get("x-delete"), None);
}

#[test]
fn last_value_of_a_repeated_header_stays() {
    let headers = vec![
        raw("set-cookie", b"a=1"),
        raw("x-other", b"o"),
        raw("set-cookie", b"b=2"),
    ];
    let map = collect_headers(&headers);
    assert_eq!(map.len(), 2);
    assert_eq!(map.get("set-cookie"), Some(&"b=2".to_string()));
}

#[test]
fn unreadable_repeat_does_not_erase_the_earlier_value() {
    let headers = vec![raw("x-a", b"first"), raw("x-a", &[0xff])];
    let map = collect_headers(&headers);
    assert_eq!(map.get("x-a"), Some(&"first".to_string()));
}

#[test]
fn answered_takes_the_reason_as_given() {
    let response = HttpResponse::answered(
        status(200),
        Some("Fine".to_string()),
        HeaderMap::new(),
        "ok".to_string(),
        5,
        2,
        9,
    );
    assert_eq!(response.status, 200);
    assert_eq!(response.status_text, "Fine");
    assert_eq!(response.size, 2);
    assert_eq!(response.duration, 9);
    assert_eq!(response.timing, TimingBreakdown { connect: 0, ttfb: 5, download: 2, total: 9 });
    let response =
        HttpResponse::answered(status(200), None, HeaderMap::new(), String::new(), 5, 2, 9);
    assert_eq!(response.status_text, "");
}

#[test]
fn unreadable_file_report_names_the_path() {
    let response = HttpResponse::file_unreadable("/no/such/file.txt", "No such file", 3);
    assert_eq!(response.status, 0);
    assert_eq!(response.status_text, "Error");
    assert_eq!(
        response.error,
        Some("Failed to read file /no/such/file.txt: No such file".to_string())
    );
    assert!(response.headers.is_empty());
    assert_eq!(response.body, "");
    assert_eq!(response.size, 0);
    assert_eq!(response.duration, 3);
    assert_eq!(response.timing, TimingBreakdown { connect: 0, ttfb: 0, download: 0, total: 0 });
}

#[test]
fn failed_keeps_the_message() {
    let response = HttpResponse::failed("dns error".to_string(), 17);
    assert_eq!(response.error, Some("dns error".to_string()));
    assert_eq!(response.status, 0);
    assert_eq!(response.timing.total, 17);
    assert_eq!(response.duration, 17);
}
