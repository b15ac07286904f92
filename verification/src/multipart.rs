//! Multipart requests: the form is put together field by field, in order,
//! and a file that cannot be read ends the request before anything is sent.

use vstd::prelude::*;
use vstd::string::*;
use crate::error::RequestError;
use crate::headers::{lemma_written_pair, pairs_of, Header, HeaderMap, Pair};
use crate::method::{method_named, parse_method, uppercase_of, Method};
use crate::request::header_order;
use crate::response::{unreadable, HttpResponse};
use crate::text::{same_text, text_of};

verus! {

/// Seconds after which a multipart request is given up.
pub const MULTIPART_TIMEOUT_SECS: u64 = 60;

/// The lower-case form of a text, as the standard library's Unicode case
/// mapping gives it.
pub uninterp spec fn lowercase_of(text: Seq<char>) -> Seq<char>;

/// Calls `str::to_lowercase`. The contract only names the result: it is the
/// lower-case form of the whole text and depends on nothing else.
#[verifier::external_body]
fn lowercase(text: &str) -> (lower: String)
    ensures
        lower@ == lowercase_of(text@),
{
    text.to_lowercase()
}

/// True when a header name, in any letter case, is that of the content type.
pub open spec fn names_content_type(name: Seq<char>) -> bool {
    lowercase_of(name) == "content-type"@
}

/// Tells whether a lower-case header name is that of the content type.
pub fn is_content_type(lowered: &str) -> (named: bool)
    ensures
        named == (lowered@ == "content-type"@),
{
    same_text(lowered, "content-type")
}

/// The headers that go out with a form, in order: all but those that name the
/// content type, which the form states itself.
pub open spec fn kept(pairs: Seq<Pair>) -> Seq<Pair>
    decreases pairs.len(),
{
    if pairs.len() == 0 {
        Seq::empty()
    } else {
        let front = kept(pairs.drop_last());
        if names_content_type(pairs.last().0) {
            front
        } else {
            front.push(pairs.last())
        }
    }
}

/// Leaves out every header that names the content type and keeps the others
/// as they are, in order.
pub fn without_content_type(headers: &Vec<Header>) -> (out: Vec<Header>)
    ensures
        pairs_of(out@) == kept(pairs_of(headers@)),
{
    let mut out: Vec<Header> = Vec::new();
    let mut i: usize = 0;
    assert(pairs_of(headers@).take(0) =~= Seq::<Pair>::empty());
    assert(pairs_of(out@) =~= Seq::<Pair>::empty());
    while i < headers.len()
        invariant
            i <= headers.len(),
            pairs_of(out@) == kept(pairs_of(headers@).take(i as int)),
        decreases headers.len() - i,
    {
        let ghost all = pairs_of(headers@);
        let ghost before = pairs_of(out@);
        proof {
            assert(all.take(i + 1).drop_last() =~= all.take(i as int));
            assert(all.take(i + 1).last() == headers@[i as int]@);
        }
        let lowered = lowercase(headers[i].name.as_str());
        if !is_content_type(lowered.as_str()) {
            out.push(headers[i].clone());
            assert(pairs_of(out@) =~= before.push(headers@[i as int]@));
        }
        i += 1;
    }
    assert(pairs_of(headers@).take(headers.len() as int) =~= pairs_of(headers@));
    out
}

/// No header that goes out with a form names the content type.
pub proof fn lemma_kept_omits_content_type(pairs: Seq<Pair>, i: int)
    requires
        0 <= i < kept(pairs).len(),
    ensures
        !names_content_type(kept(pairs)[i].0),
    decreases pairs.len(),
{
    if pairs.len() > 0 {
        let front = kept(pairs.drop_last());
        if i < front.len() {
            lemma_kept_omits_content_type(pairs.drop_last(), i);
        }
    }
}

/// Every header that does not name the content type goes out with the form,
/// as it was given.
pub proof fn lemma_kept_retains_others(pairs: Seq<Pair>, i: int)
    requires
        0 <= i < pairs.len(),
        !names_content_type(pairs[i].0),
    ensures
        kept(pairs).contains(pairs[i]),
    decreases pairs.len(),
{
    let front = kept(pairs.drop_last());
    if i < pairs.len() - 1 {
        lemma_kept_retains_others(pairs.drop_last(), i);
        let at = choose|k: int| 0 <= k < front.len() && front[k] == pairs.drop_last()[i];
        assert(kept(pairs)[at] == pairs[i]);
    } else {
        assert(kept(pairs) == front.push(pairs[i]));
        assert(kept(pairs)[front.len() as int] == pairs[i]);
    }
}

/// The last component of a path, where it has one, as the standard library
/// takes paths apart.
pub uninterp spec fn file_name_of(path: Seq<char>) -> Option<Seq<char>>;

/// Calls `std::path::Path::file_name` on the path. The contract only names
/// the result: it is found in the text of the path alone, and no file is
/// looked at.
#[verifier::external_body]
fn path_file_name(path: &str) -> (name: Option<String>)
    ensures
        text_of(name) == file_name_of(path@),
{
    std::path::Path::new(path).file_name().and_then(|name| name.to_str()).map(
        |name| name.to_string(),
    )
}

/// The media type that the extension of a path suggests, or the type of
/// arbitrary bytes where it suggests none.
pub uninterp spec fn guessed_mime_of(path: Seq<char>) -> Seq<char>;

/// Calls `mime_guess::from_path` and `first_or_octet_stream` on the guess.
/// The contract only names the result: the type is looked up in a fixed table
/// by the extension of the path, and no file is looked at.
#[verifier::external_body]
fn guess_mime(path: &str) -> (mime: String)
    ensures
        mime@ == guessed_mime_of(path@),
{
    mime_guess::from_path(path).first_or_octet_stream().to_string()
}

/// One field of a form. With the type `file` the value is the path of a file
/// to send; with any other type the value is sent as text.
#[derive(Debug)]
pub struct FormDataField {
    pub key: String,
    pub value: String,
    pub field_type: String,
    /// The name under which a file is reported, where the caller chose one.
    pub filename: Option<String>,
}

/// A field as its texts.
pub struct FieldView {
    pub key: Seq<char>,
    pub value: Seq<char>,
    pub is_file: bool,
    pub filename: Option<Seq<char>>,
}

impl View for FormDataField {
    type V = FieldView;

    open spec fn view(&self) -> FieldView {
        FieldView {
            key: self.key@,
            value: self.value@,
            is_file: self.field_type@ == "file"@,
            filename: text_of(self.filename),
        }
    }
}

impl FormDataField {
    /// Tells whether the field stands for a file.
    pub fn is_file(&self) -> (file: bool)
        ensures
            file == self@.is_file,
    {
        same_text(self.field_type.as_str(), "file")
    }
}

/// The fields of a sequence, each by its view.
pub open spec fn field_views(fields: Seq<FormDataField>) -> Seq<FieldView> {
    Seq::new(fields.len(), |i: int| fields[i]@)
}

/// One part of a form.
#[derive(Debug)]
pub enum Part {
    Text { name: String, value: String },
    File { name: String, filename: String, mime: String, content: Vec<u8> },
}

/// A part as its texts and bytes.
pub enum PartView {
    Text { name: Seq<char>, value: Seq<char> },
    File { name: Seq<char>, filename: Seq<char>, mime: Seq<char>, content: Seq<u8> },
}

impl View for Part {
    type V = PartView;

    open spec fn view(&self) -> PartView {
        match self {
            Part::Text { name, value } => PartView::Text { name: name@, value: value@ },
            Part::File { name, filename, mime, content } => PartView::File {
                name: name@,
                filename: filename@,
                mime: mime@,
                content: content@,
            },
        }
    }
}

impl PartView {
    /// The bytes of a file part; a text part has none.
    pub open spec fn content(&self) -> Seq<u8> {
        match self {
            PartView::Text { .. } => Seq::empty(),
            PartView::File { content, .. } => *content,
        }
    }
}

/// The parts of a sequence, each by its view.
pub open spec fn part_views(parts: Seq<Part>) -> Seq<PartView> {
    Seq::new(parts.len(), |i: int| parts[i]@)
}

/// The name under which a file is reported: the one that was chosen, else the
/// one found in the path, else `file`.
pub open spec fn chosen_name(chosen: Option<Seq<char>>, found: Option<Seq<char>>) -> Seq<char> {
    match chosen {
        Some(name) => name,
        None => match found {
            Some(name) => name,
            None => "file"@,
        },
    }
}

/// Settles the name under which a file is reported: `chosen` is the name that
/// the caller gave, `found` the one that the path ends in.
pub fn resolve_filename(chosen: Option<String>, found: Option<String>) -> (name: String)
    ensures
        name@ == chosen_name(text_of(chosen), text_of(found)),
{
    match chosen {
        Some(name) => name,
        None => match found {
            Some(name) => name,
            None => String::from_str("file"),
        },
    }
}

/// The part that a field stands for, given the bytes of its file (which a
/// text field does not use).
pub open spec fn part_for(field: FieldView, content: Seq<u8>) -> PartView {
    if field.is_file {
        PartView::File {
            name: field.key,
            filename: chosen_name(field.filename, file_name_of(field.value)),
            mime: guessed_mime_of(field.value),
            content,
        }
    } else {
        PartView::Text { name: field.key, value: field.value }
    }
}

/// True when the parts stand for the first fields, one for one and in order.
pub open spec fn in_field_order(parts: Seq<PartView>, fields: Seq<FieldView>) -> bool {
    &&& parts.len() <= fields.len()
    &&& forall|i: int|
        0 <= i < parts.len() ==> #[trigger] parts[i] == part_for(fields[i], parts[i].content())
}

/// Adding the part of the next field keeps the parts in the order of the fields.
pub proof fn lemma_next_part_in_order(
    parts: Seq<PartView>,
    fields: Seq<FieldView>,
    content: Seq<u8>,
)
    requires
        in_field_order(parts, fields),
        parts.len() < fields.len(),
    ensures
        in_field_order(parts.push(part_for(fields[parts.len() as int], content)), fields),
{
    let added = parts.push(part_for(fields[parts.len() as int], content));
    assert forall|i: int| 0 <= i < added.len() implies #[trigger] added[i] == part_for(
        fields[i],
        added[i].content(),
    ) by {
        if i < parts.len() {
            assert(added[i] == parts[i]);
        }
    }
}

/// The parts once the text fields that come next have been added: up to the
/// next file field, or to the end.
pub open spec fn settled(fields: Seq<FieldView>, parts: Seq<PartView>) -> Seq<PartView>
    decreases fields.len() - parts.len(),
{
    if parts.len() < fields.len() && !fields[parts.len() as int].is_file {
        settled(fields, parts.push(part_for(fields[parts.len() as int], Seq::empty())))
    } else {
        parts
    }
}

/// A multipart request as the caller states it.
#[derive(Debug)]
pub struct MultipartRequest {
    pub method: String,
    pub url: String,
    pub headers: Option<HeaderMap>,
    pub fields: Vec<FormDataField>,
}

/// A multipart request that is ready to be sent.
#[derive(Debug)]
pub struct MultipartPlan {
    pub method: Method,
    pub url: String,
    /// The headers to apply, in order. None of them names the content type.
    pub headers: Vec<Header>,
    /// The parts of the form, in the order of the fields.
    pub parts: Vec<Part>,
    /// The deadline for the whole exchange.
    pub timeout_secs: u64,
}

/// A plan as its texts and bytes.
pub struct PlanView {
    pub method: Method,
    pub url: Seq<char>,
    pub headers: Seq<Pair>,
    pub parts: Seq<PartView>,
    pub timeout_secs: u64,
}

impl View for MultipartPlan {
    type V = PlanView;

    open spec fn view(&self) -> PlanView {
        PlanView {
            method: self.method,
            url: self.url@,
            headers: pairs_of(self.headers@),
            parts: part_views(self.parts@),
            timeout_secs: self.timeout_secs,
        }
    }
}

/// A form that is being put together: what is to be sent, the fields it is
/// made from, and the parts made so far.
pub struct FormState {
    pub method: Method,
    pub url: Seq<char>,
    pub headers: Seq<Pair>,
    pub fields: Seq<FieldView>,
    pub parts: Seq<PartView>,
}

impl FormState {
    /// True when the parts made so far stand for the first fields and the
    /// next field is a file that has yet to be read.
    pub open spec fn awaits_file(&self) -> bool {
        &&& in_field_order(self.parts, self.fields)
        &&& self.parts.len() < self.fields.len()
        &&& self.fields[self.parts.len() as int].is_file
    }

    /// The path of the file that is to be read next.
    pub open spec fn path(&self) -> Seq<char> {
        self.fields[self.parts.len() as int].value
    }

    /// The state once the file that was waited for has been read.
    pub open spec fn supplied(&self, content: Seq<u8>) -> FormState {
        FormState {
            parts: self.parts.push(part_for(self.fields[self.parts.len() as int], content)),
            ..*self
        }
    }
}

/// Where the assembly of a form stands.
pub enum AssemblyView {
    /// A file has to be read before the assembly can go on.
    NeedsFile(FormState),
    /// Every field has its part.
    Ready(PlanView),
}

/// How the assembly goes on from a state: the text fields that come next get
/// their parts; then either a file is waited for, or the form is complete.
pub open spec fn proceed(state: FormState) -> AssemblyView {
    let parts = settled(state.fields, state.parts);
    if parts.len() < state.fields.len() {
        AssemblyView::NeedsFile(FormState { parts, ..state })
    } else {
        AssemblyView::Ready(
            PlanView {
                method: state.method,
                url: state.url,
                headers: state.headers,
                parts,
                timeout_secs: 60,
            },
        )
    }
}

/// Adding the text fields that come next keeps the parts in the order of the
/// fields, and stops in front of a file field or at the end.
pub proof fn lemma_settled(fields: Seq<FieldView>, parts: Seq<PartView>)
    requires
        in_field_order(parts, fields),
    ensures
        in_field_order(settled(fields, parts), fields),
        parts.len() <= settled(fields, parts).len() <= fields.len(),
        settled(fields, parts).len() < fields.len() ==> fields[settled(
            fields,
            parts,
        ).len() as int].is_file,
        forall|i: int| 0 <= i < parts.len() ==> settled(fields, parts)[i] == parts[i],
    decreases fields.len() - parts.len(),
{
    if parts.len() < fields.len() && !fields[parts.len() as int].is_file {
        let next = parts.push(part_for(fields[parts.len() as int], Seq::empty()));
        lemma_next_part_in_order(parts, fields, Seq::empty());
        lemma_settled(fields, next);
        assert forall|i: int| 0 <= i < parts.len() implies settled(fields, parts)[i]
            == parts[i] by {
            assert(next[i] == parts[i]);
        }
    }
}

/// A form that waits for a file to be read. It is either supplied with the
/// bytes of the file, or given up.
#[derive(Debug)]
pub struct Pending {
    method: Method,
    url: String,
    headers: Vec<Header>,
    fields: Vec<FormDataField>,
    parts: Vec<Part>,
}

impl View for Pending {
    type V = FormState;

    closed spec fn view(&self) -> FormState {
        FormState {
            method: self.method,
            url: self.url@,
            headers: pairs_of(self.headers@),
            fields: field_views(self.fields@),
            parts: part_views(self.parts@),
        }
    }
}

/// Where the assembly of a form stands.
#[derive(Debug)]
pub enum Assembly {
    /// A file has to be read: supply its bytes, or report that it cannot be read.
    NeedsFile(Pending),
    /// The form is complete and can be sent.
    Ready(MultipartPlan),
}

impl View for Assembly {
    type V = AssemblyView;

    open spec fn view(&self) -> AssemblyView {
        match self {
            Assembly::NeedsFile(pending) => AssemblyView::NeedsFile(pending@),
            Assembly::Ready(plan) => AssemblyView::Ready(plan@),
        }
    }
}

/// Adds the parts of the text fields that come next, and says whether a file
/// is waited for or the form is complete.
fn go_on(
    method: Method,
    url: String,
    headers: Vec<Header>,
    fields: Vec<FormDataField>,
    parts: Vec<Part>,
) -> (assembly: Assembly)
    requires
        in_field_order(part_views(parts@), field_views(fields@)),
    ensures
        assembly@ == proceed(
            FormState {
                method,
                url: url@,
                headers: pairs_of(headers@),
                fields: field_views(fields@),
                parts: part_views(parts@),
            },
        ),
{
    let ghost start = part_views(parts@);
    let ghost all = field_views(fields@);
    let mut parts = parts;
    proof {
        lemma_settled(all, start);
    }
    while parts.len() < fields.len() && !fields[parts.len()].is_file()
        invariant
            all == field_views(fields@),
            in_field_order(part_views(parts@), all),
            settled(all, part_views(parts@)) == settled(all, start),
        decreases fields.len() - parts.len(),
    {
        let ghost before = part_views(parts@);
        let field = &fields[parts.len()];
        parts.push(Part::Text { name: field.key.clone(), value: field.value.clone() });
        proof {
            lemma_next_part_in_order(before, all, Seq::empty());
            assert(part_views(parts@) =~= before.push(
                part_for(all[before.len() as int], Seq::empty()),
            ));
        }
    }
    if parts.len() < fields.len() {
        Assembly::NeedsFile(Pending { method, url, headers, fields, parts })
    } else {
        Assembly::Ready(
            MultipartPlan { method, url, headers, parts, timeout_secs: MULTIPART_TIMEOUT_SECS },
        )
    }
}

impl Pending {
    #[verifier::type_invariant]
    closed spec fn waiting(&self) -> bool {
        self@.awaits_file()
    }

    /// The path of the file that is to be read next.
    pub fn path(&self) -> (path: &str)
        ensures
            path@ == self@.path(),
            self@.awaits_file(),
    {
        proof {
            use_type_invariant(self);
        }
        self.fields[self.parts.len()].value.as_str()
    }

    /// Goes on with the bytes of the file that was waited for: the file gets
    /// its part, under the name settled for it and with the media type that
    /// its path suggests, and the text fields behind it get theirs.
    pub fn supply(self, content: Vec<u8>) -> (assembly: Assembly)
        ensures
            self@.awaits_file(),
            assembly@ == proceed(self@.supplied(content@)),
    {
        proof {
            use_type_invariant(&self);
        }
        let Pending { method, url, headers, fields, parts } = self;
        let mut parts = parts;
        let ghost before = part_views(parts@);
        let ghost all = field_views(fields@);
        let field = &fields[parts.len()];
        let filename = resolve_filename(
            field.filename.clone(),
            path_file_name(field.value.as_str()),
        );
        let mime = guess_mime(field.value.as_str());
        parts.push(Part::File { name: field.key.clone(), filename, mime, content });
        proof {
            lemma_next_part_in_order(before, all, content@);
            assert(part_views(parts@) =~= before.push(
                part_for(all[before.len() as int], content@),
            ));
        }
        go_on(method, url, headers, fields, parts)
    }

    /// Gives the form up because the file that was waited for cannot be read.
    /// Nothing is sent: the response reports the path and the cause.
    pub fn fail(self, cause: &str, elapsed: u128) -> (response: HttpResponse)
        ensures
            self@.awaits_file(),
            response@ == unreadable(self@.path(), cause@, elapsed),
            response@.consistent(),
    {
        proof {
            use_type_invariant(&self);
        }
        HttpResponse::file_unreadable(self.fields[self.parts.len()].value.as_str(), cause, elapsed)
    }
}

/// The state in which the assembly of a request starts with the given
/// method: the headers without the content type, and no part made yet.
pub open spec fn opening(request: MultipartRequest, method: Method) -> FormState {
    FormState {
        method,
        url: request.url@,
        headers: kept(header_order(request.headers)),
        fields: field_views(request.fields@),
        parts: Seq::empty(),
    }
}

/// What the start of a multipart request comes to, given the method that the
/// request names (if any): with a method that carries a form the assembly
/// starts; any other request is turned down.
pub open spec fn started(parsed: Option<Method>, request: MultipartRequest, result: Result<
    Assembly,
    RequestError,
>) -> bool {
    if parsed is Some && parsed->0.carries_form() {
        result matches Ok(assembly) && assembly@ == proceed(opening(request, parsed->0))
    } else {
        result matches Err(RequestError::MultipartUnsupported { method }) && method@
            == request.method@
    }
}

/// Starts the assembly of a request whose method has been read: `parsed` is
/// the method that the request names, or `None` where it names none. A
/// request without a method that carries a form is turned down before any
/// field is looked at.
pub fn plan_multipart(parsed: Option<Method>, request: MultipartRequest) -> (result: Result<
    Assembly,
    RequestError,
>)
    ensures
        started(parsed, request, result),
{
    let method = match parsed {
        Some(method) => {
            if method.allows_form() {
                method
            } else {
                return Err(RequestError::MultipartUnsupported { method: request.method });
            }
        },
        None => {
            return Err(RequestError::MultipartUnsupported { method: request.method });
        },
    };
    let MultipartRequest { method: _, url, headers, fields } = request;
    let given = match headers {
        Some(map) => map.into_entries(),
        None => Vec::new(),
    };
    assert(headers is None ==> pairs_of(given@) =~= Seq::<Pair>::empty());
    let sent = without_content_type(&given);
    let parts: Vec<Part> = Vec::new();
    assert(part_views(parts@) =~= Seq::<PartView>::empty());
    Ok(go_on(method, url, sent, fields, parts))
}

/// Validates a multipart request and starts its assembly. The method is read
/// without regard to letter case; only POST, PUT and PATCH carry a form.
pub fn begin_multipart(request: MultipartRequest) -> (result: Result<Assembly, RequestError>)
    ensures
        started(method_named(uppercase_of(request.method@)), request, result),
{
    let parsed = parse_method(request.method.as_str());
    plan_multipart(parsed, request)
}

/// Every header that the caller gave goes out with the form, under the name
/// and with the value as given, unless its name is that of the content type;
/// and no header that goes out has that name.
pub proof fn lemma_form_headers(request: MultipartRequest, method: Method, name: Seq<char>)
    requires
        request.headers is Some,
        request.headers->0.wf(),
        request.headers->0@.dom().contains(name),
    ensures
        !names_content_type(name) ==> opening(request, method).headers.contains(
            (name, request.headers->0@[name]),
        ),
        forall|i: int|
            0 <= i < opening(request, method).headers.len() ==> !names_content_type(
                (#[trigger] opening(request, method).headers[i]).0,
            ),
{
    let given = request.headers->0.order();
    lemma_written_pair(given, name);
    let at = choose|i: int| 0 <= i < given.len() && given[i] == (name, request.headers->0@[name]);
    if !names_content_type(name) {
        lemma_kept_retains_others(given, at);
    }
    assert forall|i: int| 0 <= i < kept(given).len() implies !names_content_type(
        (#[trigger] kept(given)[i]).0,
    ) by {
        lemma_kept_omits_content_type(given, i);
    }
}

/// A request whose method carries no form is turned down at the start: the
/// result holds the error alone, so that there is neither a file to read nor
/// a form to send.
pub proof fn lemma_refused_at_start(
    parsed: Option<Method>,
    request: MultipartRequest,
    result: Result<Assembly, RequestError>,
)
    requires
        started(parsed, request, result),
        parsed is None || !parsed->0.carries_form(),
    ensures
        result is Err,
        result->Err_0.text() == "Multipart not supported for method: "@ + request.method@,
{
}

/// A request whose method carries a form is never turned down.
pub proof fn lemma_accepted_at_start(
    parsed: Option<Method>,
    request: MultipartRequest,
    result: Result<Assembly, RequestError>,
)
    requires
        started(parsed, request, result),
        parsed == Some(Method::Post) || parsed == Some(Method::Put) || parsed == Some(
            Method::Patch,
        ),
    ensures
        result is Ok,
{
}

/// The parts of a complete form stand for the fields, one for one and in the
/// order of the fields, however the files were read in between; and the
/// method, the address and the headers stay as they were at the start.
pub proof fn lemma_parts_follow_fields(state: FormState)
    requires
        in_field_order(state.parts, state.fields),
    ensures
        match proceed(state) {
            AssemblyView::NeedsFile(next) => {
                &&& next.awaits_file()
                &&& next.fields == state.fields
                &&& next.method == state.method
                &&& next.url == state.url
                &&& next.headers == state.headers
            },
            AssemblyView::Ready(plan) => {
                &&& plan.parts.len() == state.fields.len()
                &&& in_field_order(plan.parts, state.fields)
                &&& plan.method == state.method
                &&& plan.url == state.url
                &&& plan.headers == state.headers
            },
        },
{
    lemma_settled(state.fields, state.parts);
}

/// Supplying the file that is waited for keeps the parts in the order of the
/// fields.
pub proof fn lemma_supplied_in_order(state: FormState, content: Seq<u8>)
    requires
        state.awaits_file(),
    ensures
        in_field_order(state.supplied(content).parts, state.fields),
        state.supplied(content).fields == state.fields,
{
    lemma_next_part_in_order(state.parts, state.fields, content);
}

} // verus!
