//! The uniform response: what was received, or why nothing was.

use vstd::prelude::*;
use vstd::string::*;
use crate::headers::{written, HeaderMap, Pair};
use crate::text::{byte_len, text_of};
use crate::timing::TimingBreakdown;

verus! {

/// A status code as a server may send it: three digits, never zero.
#[derive(Debug, Clone, Copy)]
pub struct StatusCode {
    code: u16,
}

impl StatusCode {
    /// The number of the status.
    pub closed spec fn value(&self) -> u16 {
        self.code
    }

    /// The range that a status number lies in.
    pub open spec fn valid(&self) -> bool {
        100 <= self.value() <= 999
    }

    #[verifier::type_invariant]
    closed spec fn in_range(&self) -> bool {
        100 <= self.code <= 999
    }

    /// Accepts the numbers from 100 to 999 and no others.
    pub fn from_u16(code: u16) -> (status: Option<StatusCode>)
        ensures
            status.is_some() == (100 <= code <= 999),
            status.is_some() ==> status.unwrap().value() == code,
    {
        if 100 <= code && code <= 999 {
            Some(StatusCode { code })
        } else {
            None
        }
    }

    /// The number of the status.
    pub fn as_u16(&self) -> (code: u16)
        ensures
            code == self.value(),
            self.valid(),
    {
        proof {
            use_type_invariant(self);
        }
        self.code
    }
}

/// The reason phrase that belongs to a status number, where it has one.
pub uninterp spec fn reason_phrase_of(code: u16) -> Option<Seq<char>>;

/// Calls `reqwest::StatusCode::from_u16` and `canonical_reason` on the result.
/// The contract only names what comes back: the phrase is looked up in a fixed
/// table by the number alone, and a number that is no status has none.
#[verifier::external_body]
fn canonical_reason(code: u16) -> (phrase: Option<String>)
    ensures
        text_of(phrase) == reason_phrase_of(code),
{
    reqwest::StatusCode::from_u16(code).ok().and_then(|status| status.canonical_reason()).map(
        |phrase| phrase.to_string(),
    )
}

/// True for the bytes that a header value may show as text: printable ASCII
/// and the tab.
pub open spec fn is_visible(byte: u8) -> bool {
    (32 <= byte && byte < 127) || byte == 9
}

/// True when every byte of a header value can be shown as text.
pub open spec fn all_visible(bytes: Seq<u8>) -> bool {
    forall|i: int| 0 <= i < bytes.len() ==> is_visible(#[trigger] bytes[i])
}

/// The text of a header value whose bytes are all ASCII.
pub open spec fn ascii_text(bytes: Seq<u8>) -> Seq<char> {
    Seq::new(bytes.len(), |i: int| bytes[i] as char)
}

/// Calls `reqwest::header::HeaderValue::from_bytes` and `to_str` on the result.
/// The value is read as text exactly when each of its bytes is printable ASCII
/// or a tab, and the text then has one character for each byte.
#[verifier::external_body]
fn header_text(value: &[u8]) -> (text: Option<String>)
    ensures
        text.is_some() == all_visible(value@),
        text.is_some() ==> text.unwrap()@ == ascii_text(value@),
{
    reqwest::header::HeaderValue::from_bytes(value).ok().and_then(
        |held| held.to_str().ok().map(|text| text.to_string()),
    )
}

/// A response header as it arrived: the name, and the bytes of the value.
#[derive(Debug)]
pub struct RawHeader {
    pub name: String,
    pub value: Vec<u8>,
}

/// The headers that can be reported, in the order of arrival: those whose
/// value reads as text. The others are left out.
pub open spec fn readable(raw: Seq<RawHeader>) -> Seq<Pair>
    decreases raw.len(),
{
    if raw.len() == 0 {
        Seq::empty()
    } else {
        let front = readable(raw.drop_last());
        let last = raw.last();
        if all_visible(last.value@) {
            front.push((last.name@, ascii_text(last.value@)))
        } else {
            front
        }
    }
}

/// Gathers the response headers into a map. A value that does not read as
/// text is dropped; where a name arrives more than once, the last value stays.
pub fn collect_headers(raw: &Vec<RawHeader>) -> (map: HeaderMap)
    ensures
        map@ == written(readable(raw@)),
{
    let mut map = HeaderMap::new();
    let mut i: usize = 0;
    while i < raw.len()
        invariant
            i <= raw.len(),
            map@ == written(readable(raw@.take(i as int))),
        decreases raw.len() - i,
    {
        let ghost front = readable(raw@.take(i as int));
        proof {
            assert(raw@.take(i + 1).drop_last() =~= raw@.take(i as int));
            assert(raw@.take(i + 1).last() == raw@[i as int]);
        }
        match header_text(raw[i].value.as_slice()) {
            Some(text) => {
                map.insert(raw[i].name.clone(), text);
                proof {
                    let pair = (raw@[i as int].name@, ascii_text(raw@[i as int].value@));
                    assert(readable(raw@.take(i + 1)) == front.push(pair));
                    assert(front.push(pair).drop_last() =~= front);
                }
            },
            None => {
                assert(readable(raw@.take(i + 1)) == front);
            },
        }
        i += 1;
    }
    assert(raw@.take(raw.len() as int) =~= raw@);
    map
}

/// What a response says, with texts as character sequences and the headers
/// as a map.
pub struct ResponseView {
    pub status: u16,
    pub status_text: Seq<char>,
    pub headers: Map<Seq<char>, Seq<char>>,
    pub body: Seq<char>,
    pub duration: u128,
    pub size: nat,
    pub error: Option<Seq<char>>,
    pub timing: TimingBreakdown,
}

impl ResponseView {
    /// The rule that every response obeys: an error is reported exactly when
    /// the status is zero, a response with an error carries neither headers
    /// nor body, and the size is the byte length of the body.
    pub open spec fn consistent(&self) -> bool {
        &&& self.error.is_some() <==> self.status == 0
        &&& self.error.is_some() ==> self.headers == Map::<Seq<char>, Seq<char>>::empty()
            && self.body == Seq::<char>::empty()
        &&& self.size == byte_len(self.body)
    }
}

/// The response that reports a failure after `total` milliseconds: status
/// zero, the message as the error, and nothing else.
pub open spec fn failure(message: Seq<char>, total: u128) -> ResponseView {
    ResponseView {
        status: 0,
        status_text: "Error"@,
        headers: Map::empty(),
        body: Seq::empty(),
        duration: total,
        size: 0,
        error: Some(message),
        timing: TimingBreakdown::spec_failed(total),
    }
}

/// The response that reports an answer: the status with its reason phrase
/// (empty where it has none), the headers and the body as received, and the
/// timing split over the phases.
pub open spec fn answer(
    code: u16,
    reason: Option<Seq<char>>,
    headers: Map<Seq<char>, Seq<char>>,
    body: Seq<char>,
    window: u128,
    download: u128,
    total: u128,
) -> ResponseView {
    ResponseView {
        status: code,
        status_text: match reason {
            Some(phrase) => phrase,
            None => Seq::empty(),
        },
        headers,
        body,
        duration: total,
        size: byte_len(body),
        error: None,
        timing: TimingBreakdown::spec_measured(window, download, total),
    }
}

/// The message that reports a file that could not be read.
pub open spec fn unreadable_message(path: Seq<char>, cause: Seq<char>) -> Seq<char> {
    "Failed to read file "@ + path + ": "@ + cause
}

/// The response that reports a form file that could not be read: a failure
/// whose timing is zero throughout, since nothing was sent.
pub open spec fn unreadable(path: Seq<char>, cause: Seq<char>, elapsed: u128) -> ResponseView {
    ResponseView {
        duration: elapsed,
        ..failure(unreadable_message(path, cause), 0)
    }
}

/// The one shape in which every request reports back.
#[derive(Debug)]
pub struct HttpResponse {
    /// The status sent by the server; zero when no response was received.
    pub status: u16,
    pub status_text: String,
    pub headers: HeaderMap,
    pub body: String,
    /// Total duration in milliseconds.
    pub duration: u128,
    /// Byte length of the body.
    pub size: usize,
    /// Why no response was received; `None` when one was.
    pub error: Option<String>,
    pub timing: TimingBreakdown,
}

impl View for HttpResponse {
    type V = ResponseView;

    open spec fn view(&self) -> ResponseView {
        ResponseView {
            status: self.status,
            status_text: self.status_text@,
            headers: self.headers@,
            body: self.body@,
            duration: self.duration,
            size: self.size as nat,
            error: text_of(self.error),
            timing: self.timing,
        }
    }
}

impl HttpResponse {
    /// Reports a failure: no response was received within `total` milliseconds.
    pub fn failed(message: String, total: u128) -> (response: HttpResponse)
        ensures
            response@ == failure(message@, total),
            response@.consistent(),
    {
        let response = HttpResponse {
            status: 0,
            status_text: String::from_str("Error"),
            headers: HeaderMap::new(),
            body: String::new(),
            duration: total,
            size: 0,
            error: Some(message),
            timing: TimingBreakdown::failed(total),
        };
        proof {
            lemma_failure_consistent(message@, total);
        }
        response
    }

    /// Reports an answer. `reason` is the phrase that belongs to the status,
    /// `window` the time from send to response headers, `download` the time
    /// spent reading the body.
    pub fn answered(
        status: StatusCode,
        reason: Option<String>,
        headers: HeaderMap,
        body: String,
        window: u128,
        download: u128,
        total: u128,
    ) -> (response: HttpResponse)
        ensures
            response@ == answer(
                status.value(),
                text_of(reason),
                headers@,
                body@,
                window,
                download,
                total,
            ),
            response@.consistent(),
    {
        let code = status.as_u16();
        let size = body.as_str().as_bytes().len();
        let status_text = match reason {
            Some(phrase) => phrase,
            None => String::new(),
        };
        HttpResponse {
            status: code,
            status_text,
            headers,
            body,
            duration: total,
            size,
            error: None,
            timing: TimingBreakdown::measured(window, download, total),
        }
    }

    /// Reports that the file of a form field could not be read. Nothing was
    /// sent, so every phase of the timing is zero.
    pub fn file_unreadable(path: &str, cause: &str, elapsed: u128) -> (response: HttpResponse)
        ensures
            response@ == unreadable(path@, cause@, elapsed),
            response@.consistent(),
    {
        let message = String::from_str("Failed to read file ").concat(path).concat(": ").concat(
            cause,
        );
        let failed = HttpResponse::failed(message, 0);
        HttpResponse {
            status: failed.status,
            status_text: failed.status_text,
            headers: failed.headers,
            body: failed.body,
            duration: elapsed,
            size: failed.size,
            error: failed.error,
            timing: failed.timing,
        }
    }

    /// True when the response reports a failure.
    pub fn is_error(&self) -> (failed: bool)
        ensures
            failed == self@.error.is_some(),
    {
        self.error.is_some()
    }
}

/// How the transport ended.
#[derive(Debug)]
pub enum TransportOutcome {
    /// The server answered and the body was read in full. `window` is the
    /// time from send to response headers, `download` the time spent reading
    /// the body, both in milliseconds.
    Answered { status: StatusCode, headers: Vec<RawHeader>, body: String, window: u128, download: u128 },
    /// Sending or reading failed; the message says why.
    Failed { message: String },
}

/// What is reported for an outcome that took `total` milliseconds in all.
pub open spec fn normalized(outcome: TransportOutcome, total: u128) -> ResponseView {
    match outcome {
        TransportOutcome::Answered { status, headers, body, window, download } => answer(
            status.value(),
            reason_phrase_of(status.value()),
            written(readable(headers@)),
            body@,
            window,
            download,
            total,
        ),
        TransportOutcome::Failed { message } => failure(message@, total),
    }
}

/// Turns the outcome of the transport into the uniform response. A failure
/// is reported as data: status zero and the message as the error.
pub fn normalize(outcome: TransportOutcome, total: u128) -> (response: HttpResponse)
    ensures
        response@ == normalized(outcome, total),
        response@.consistent(),
{
    match outcome {
        TransportOutcome::Answered { status, headers, body, window, download } => {
            let reason = canonical_reason(status.as_u16());
            let map = collect_headers(&headers);
            HttpResponse::answered(status, reason, map, body, window, download, total)
        },
        TransportOutcome::Failed { message } => HttpResponse::failed(message, total),
    }
}

/// Whatever the transport reports, the response carries an error exactly when
/// its status is zero, and a response with an error has neither headers nor
/// body and the size zero.
pub proof fn lemma_normalized_consistent(outcome: TransportOutcome, total: u128)
    requires
        outcome matches TransportOutcome::Answered { status, .. } ==> status.valid(),
    ensures
        normalized(outcome, total).consistent(),
        normalized(outcome, total).error.is_some() <==> normalized(outcome, total).status == 0,
        normalized(outcome, total).error.is_some() ==> normalized(outcome, total).size == 0,
{
    match outcome {
        TransportOutcome::Answered { status, headers, body, window, download } => {
            lemma_answer_consistent(
                status.value(),
                reason_phrase_of(status.value()),
                written(readable(headers@)),
                body@,
                window,
                download,
                total,
            );
        },
        TransportOutcome::Failed { message } => {
            lemma_failure_consistent(message@, total);
        },
    }
}

/// The phases of an answer add up under the total whenever the measured
/// window and download do: the connect estimate is taken out of the window,
/// never added to it.
pub proof fn lemma_answer_phases_within_total(
    code: u16,
    reason: Option<Seq<char>>,
    headers: Map<Seq<char>, Seq<char>>,
    body: Seq<char>,
    window: u128,
    download: u128,
    total: u128,
)
    requires
        window + download <= total,
    ensures
        ({
            let timing = answer(code, reason, headers, body, window, download, total).timing;
            &&& timing.connect + timing.ttfb == window
            &&& timing.connect + timing.ttfb + timing.download <= timing.total
            &&& timing.total >= timing.ttfb + timing.download
        }),
{
    crate::timing::lemma_shares_partition(window as nat);
}

/// The report of a file that cannot be read has the status zero, holds the
/// path within its error text, and shows zero for every phase and the total.
pub proof fn lemma_unreadable_names_path(path: Seq<char>, cause: Seq<char>, elapsed: u128)
    ensures
        ({
            let report = unreadable(path, cause, elapsed);
            let text = unreadable_message(path, cause);
            &&& report.status == 0
            &&& report.error == Some(text)
            &&& report.headers == Map::<Seq<char>, Seq<char>>::empty()
            &&& report.body == Seq::<char>::empty()
            &&& report.timing.phases_zero() && report.timing.total == 0
            &&& report.consistent()
            &&& text.subrange(20, 20 + path.len() as int) == path
        }),
{
    reveal_strlit("Failed to read file ");
    lemma_failure_consistent(unreadable_message(path, cause), 0);
    let text = unreadable_message(path, cause);
    assert("Failed to read file "@.len() == 20);
    assert(text.subrange(20, 20 + path.len() as int) =~= path);
}

/// A failure report obeys the rule of responses.
pub proof fn lemma_failure_consistent(message: Seq<char>, total: u128)
    ensures
        failure(message, total).consistent(),
{
    assert(byte_len(Seq::<char>::empty()) == 0);
}

/// An answer with a status from 100 to 999 obeys the rule of responses.
pub proof fn lemma_answer_consistent(
    code: u16,
    reason: Option<Seq<char>>,
    headers: Map<Seq<char>, Seq<char>>,
    body: Seq<char>,
    window: u128,
    download: u128,
    total: u128,
)
    requires
        100 <= code <= 999,
    ensures
        answer(code, reason, headers, body, window, download, total).consistent(),
{
}

} // verus!
