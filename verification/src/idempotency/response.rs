//! The snapshot of an HTTP response that is kept for replay: a status code, the
//! header pairs in order, and the raw body.

use vstd::prelude::*;
use vstd::string::*;

verus! {

/// One header of a response: its name and the raw bytes of its value.
#[derive(Debug)]
pub struct HeaderPair {
    pub name: String,
    pub value: Vec<u8>,
}

/// What a `HeaderPair` holds.
pub struct HeaderPairView {
    pub name: Seq<char>,
    pub value: Seq<u8>,
}

impl View for HeaderPair {
    type V = HeaderPairView;

    open spec fn view(&self) -> HeaderPairView {
        HeaderPairView { name: self.name@, value: self.value@ }
    }
}

/// What a response snapshot holds, stored or ready for replay.
pub struct ResponseView {
    pub status_code: int,
    pub headers: Seq<HeaderPairView>,
    pub body: Seq<u8>,
}

/// The views of a list of header pairs, in the same order.
pub open spec fn headers_view(headers: Seq<HeaderPair>) -> Seq<HeaderPairView> {
    Seq::new(headers.len(), |i: int| headers[i]@)
}

/// The response columns of a processing record as they are persisted. A row
/// may have been damaged since it was written, so nothing is known of it until
/// `SavedHttpResponse::replay` has accepted it.
#[derive(Debug)]
pub struct StoredResponse {
    pub status_code: i16,
    pub headers: Vec<HeaderPair>,
    pub body: Vec<u8>,
}

impl View for StoredResponse {
    type V = ResponseView;

    open spec fn view(&self) -> ResponseView {
        ResponseView {
            status_code: self.status_code as int,
            headers: headers_view(self.headers@),
            body: self.body@,
        }
    }
}

/// Why a stored response cannot be replayed. Each is a fault of the server's
/// data, not of the caller.
#[derive(Clone, Copy, Debug, PartialEq, Eq, Structural)]
pub enum ReplayError {
    /// The status code is not a three-digit number.
    InvalidStatusCode,
    /// A header name is not a legal HTTP field name.
    InvalidHeaderName,
    /// A header value holds a byte that HTTP forbids.
    InvalidHeaderValue,
}

/// A status code that an HTTP response can carry.
pub open spec fn valid_status_code(code: int) -> bool {
    100 <= code < 1000
}

/// A byte that may stand in a header value: visible, a space, a tab, or above
/// the ASCII range.
pub open spec fn valid_value_byte(b: u8) -> bool {
    (b >= 32 && b != 127) || b == 9
}

/// A header value all of whose bytes may stand in one.
pub open spec fn valid_header_value(value: Seq<u8>) -> bool {
    forall|i: int| 0 <= i < value.len() ==> valid_value_byte(#[trigger] value[i])
}

/// The longest header name, in bytes.
pub const MAX_HEADER_NAME_LENGTH: usize = 65535;

/// A character that may stand in a header name: an ASCII letter or digit, or
/// one of ``! " # $ % & ' * + - . ^ _ ` | ~``.
pub open spec fn valid_name_char(c: char) -> bool {
    let n = c as u32;
    ||| 33 <= n <= 39
    ||| n == 42
    ||| n == 43
    ||| n == 45
    ||| n == 46
    ||| 48 <= n <= 57
    ||| 65 <= n <= 90
    ||| 94 <= n <= 122
    ||| n == 124
    ||| n == 126
}

/// A legal header name: not empty, not longer than `MAX_HEADER_NAME_LENGTH`,
/// and made of characters that may stand in one.
pub open spec fn valid_header_name(name: Seq<char>) -> bool {
    &&& 0 < name.len() <= MAX_HEADER_NAME_LENGTH
    &&& forall|i: int| 0 <= i < name.len() ==> valid_name_char(#[trigger] name[i])
}

/// The fault of the first malformed header at or after position `from`, if
/// there is one. In a pair the name is judged before the value.
pub open spec fn header_fault_from(headers: Seq<HeaderPairView>, from: int) -> Option<ReplayError>
    decreases headers.len() - from,
{
    if from < 0 || from >= headers.len() {
        None
    } else if !valid_header_name(headers[from].name) {
        Some(ReplayError::InvalidHeaderName)
    } else if !valid_header_value(headers[from].value) {
        Some(ReplayError::InvalidHeaderValue)
    } else {
        header_fault_from(headers, from + 1)
    }
}

/// Why `v` cannot be replayed, or `None` when it can. The status code is
/// judged first, then the headers in order.
pub open spec fn replay_fault(v: ResponseView) -> Option<ReplayError> {
    if !valid_status_code(v.status_code) {
        Some(ReplayError::InvalidStatusCode)
    } else {
        header_fault_from(v.headers, 0)
    }
}

/// A snapshot from which a response can be rebuilt.
pub open spec fn replayable(v: ResponseView) -> bool {
    replay_fault(v) is None
}

/// The redirect that answers a command: status 303 with one `location` header
/// and no body.
pub open spec fn see_other_view(location: Seq<u8>) -> ResponseView {
    ResponseView {
        status_code: 303,
        headers: seq![HeaderPairView { name: "location"@, value: location }],
        body: Seq::empty(),
    }
}

/// `StatusCode::from_u16`: accepts the codes from 100 to 999 and no others.
#[verifier::external_body]
fn status_code_accepted(code: u16) -> (b: bool)
    ensures
        b == valid_status_code(code as int),
{
    actix_web::http::StatusCode::from_u16(code).is_ok()
}

/// `HeaderValue::from_bytes`: accepts a value exactly when each byte is at
/// least 32 and not 127, or is a tab.
#[verifier::external_body]
fn header_value_accepted(value: &[u8]) -> (b: bool)
    ensures
        b == valid_header_value(value@),
{
    actix_web::http::header::HeaderValue::from_bytes(value).is_ok()
}

/// `HeaderName::from_bytes` on the name's UTF-8 bytes: accepts a name of 1 to
/// 65535 bytes each of which its table of header characters maps to a
/// character, that is the ASCII letters and digits and
/// ``! " # $ % & ' * + - . ^ _ ` | ~``. A character outside ASCII is encoded in
/// bytes from 128 up, which the table refuses.
#[verifier::external_body]
fn header_name_accepted(name: &str) -> (b: bool)
    ensures
        b == valid_header_name(name@),
{
    actix_web::http::header::HeaderName::from_bytes(name.as_bytes()).is_ok()
}

/// The name of the header that carries a redirect's target.
fn location_header_name() -> (name: String)
    ensures
        name@ == "location"@,
        valid_header_name(name@),
{
    let name = String::from_str("location");
    proof {
        reveal_strlit("location");
        assert forall|i: int| 0 <= i < name@.len() implies valid_name_char(#[trigger] name@[i]) by {}
    }
    name
}

/// A copy of `bytes`.
pub fn copy_bytes(bytes: &Vec<u8>) -> (r: Vec<u8>)
    ensures
        r@ == bytes@,
{
    let mut r: Vec<u8> = Vec::new();
    let mut i: usize = 0;
    while i < bytes.len()
        invariant
            i <= bytes.len(),
            r@ == bytes@.take(i as int),
        decreases bytes.len() - i,
    {
        r.push(bytes[i]);
        i += 1;
    }
    r
}

/// A copy of `headers`, pair by pair.
pub fn copy_headers(headers: &Vec<HeaderPair>) -> (r: Vec<HeaderPair>)
    ensures
        headers_view(r@) == headers_view(headers@),
{
    let mut r: Vec<HeaderPair> = Vec::new();
    let mut i: usize = 0;
    while i < headers.len()
        invariant
            i <= headers.len(),
            r.len() == i,
            forall|j: int| 0 <= j < i ==> r@[j]@ == headers@[j]@,
        decreases headers.len() - i,
    {
        let pair = HeaderPair {
            name: headers[i].name.clone(),
            value: copy_bytes(&headers[i].value),
        };
        r.push(pair);
        i += 1;
    }
    assert(headers_view(r@) =~= headers_view(headers@));
    r
}

/// Checks the headers in order and reports the first fault.
fn check_headers(headers: &Vec<HeaderPair>) -> (fault: Option<ReplayError>)
    ensures
        fault == header_fault_from(headers_view(headers@), 0),
{
    let ghost hv = headers_view(headers@);
    let mut i: usize = 0;
    while i < headers.len()
        invariant
            i <= headers.len(),
            hv == headers_view(headers@),
            header_fault_from(hv, 0) == header_fault_from(hv, i as int),
        decreases headers.len() - i,
    {
        assert(hv[i as int] == headers@[i as int]@);
        if !header_name_accepted(headers[i].name.as_str()) {
            return Some(ReplayError::InvalidHeaderName);
        }
        if !header_value_accepted(headers[i].value.as_slice()) {
            return Some(ReplayError::InvalidHeaderValue);
        }
        i += 1;
    }
    None
}

/// A response snapshot that is known to be replayable: the response that a
/// command produced, kept so that a repeat of the command can be answered with
/// the same bytes.
#[derive(Debug)]
pub struct SavedHttpResponse {
    status_code: u16,
    headers: Vec<HeaderPair>,
    body: Vec<u8>,
}

impl View for SavedHttpResponse {
    type V = ResponseView;

    closed spec fn view(&self) -> ResponseView {
        ResponseView {
            status_code: self.status_code as int,
            headers: headers_view(self.headers@),
            body: self.body@,
        }
    }
}

impl SavedHttpResponse {
    #[verifier::type_invariant]
    spec fn well_formed(&self) -> bool {
        replayable(self@)
    }

    /// Builds a snapshot from its parts, or says why they make no response.
    pub fn new(status_code: u16, headers: Vec<HeaderPair>, body: Vec<u8>) -> (r: Result<
        SavedHttpResponse,
        ReplayError,
    >)
        ensures
            match r {
                Ok(response) => response@ == (ResponseView {
                    status_code: status_code as int,
                    headers: headers_view(headers@),
                    body: body@,
                }) && replayable(response@),
                Err(e) => replay_fault(
                    ResponseView {
                        status_code: status_code as int,
                        headers: headers_view(headers@),
                        body: body@,
                    },
                ) == Some(e),
            },
    {
        if !status_code_accepted(status_code) {
            return Err(ReplayError::InvalidStatusCode);
        }
        match check_headers(&headers) {
            Some(e) => Err(e),
            None => Ok(SavedHttpResponse { status_code, headers, body }),
        }
    }

    /// A snapshot of parts that are known to make a response.
    pub(crate) fn build(status_code: u16, headers: Vec<HeaderPair>, body: Vec<u8>) -> (response:
        SavedHttpResponse)
        requires
            replayable(
                ResponseView {
                    status_code: status_code as int,
                    headers: headers_view(headers@),
                    body: body@,
                },
            ),
        ensures
            response@ == (ResponseView {
                status_code: status_code as int,
                headers: headers_view(headers@),
                body: body@,
            }),
    {
        SavedHttpResponse { status_code, headers, body }
    }

    /// Rebuilds a response from the stored columns. A row that was written by
    /// `to_stored` is always accepted; a damaged one is refused with the first
    /// fault found.
    pub fn replay(stored: StoredResponse) -> (r: Result<SavedHttpResponse, ReplayError>)
        ensures
            match r {
                Ok(response) => response@ == stored@ && replayable(stored@),
                Err(e) => replay_fault(stored@) == Some(e),
            },
    {
        if stored.status_code < 0 {
            return Err(ReplayError::InvalidStatusCode);
        }
        let code: u16 = stored.status_code as u16;
        SavedHttpResponse::new(code, stored.headers, stored.body)
    }

    /// The columns under which this response is persisted.
    pub fn to_stored(&self) -> (stored: StoredResponse)
        ensures
            stored@ == self@,
            replayable(stored@),
    {
        proof {
            use_type_invariant(self);
        }
        StoredResponse {
            status_code: self.status_code as i16,
            headers: copy_headers(&self.headers),
            body: copy_bytes(&self.body),
        }
    }

    /// A copy with the same status, headers and body.
    pub fn duplicate(&self) -> (r: SavedHttpResponse)
        ensures
            r@ == self@,
    {
        proof {
            use_type_invariant(self);
        }
        SavedHttpResponse {
            status_code: self.status_code,
            headers: copy_headers(&self.headers),
            body: copy_bytes(&self.body),
        }
    }

    /// The redirect to `location`, which may stand in a header value: status
    /// 303, one `location` header, no body.
    pub(crate) fn redirect(location: &str) -> (response: SavedHttpResponse)
        requires
            valid_header_value(location.spec_bytes()),
        ensures
            response@ == see_other_view(location.spec_bytes()),
    {
        let mut headers: Vec<HeaderPair> = Vec::new();
        headers.push(HeaderPair { name: location_header_name(), value: location.as_bytes_vec() });
        let ghost hv = headers_view(headers@);
        proof {
            assert(hv =~= seq![
                HeaderPairView { name: "location"@, value: location.spec_bytes() },
            ]);
            assert(header_fault_from(hv, 1) is None);
            assert(header_fault_from(hv, 0) is None);
        }
        SavedHttpResponse { status_code: 303, headers, body: Vec::new() }
    }

    /// The redirect to `location`: status 303, one `location` header, no body.
    /// It exists exactly when `location` may stand in a header value.
    pub fn see_other(location: &str) -> (r: Result<SavedHttpResponse, ReplayError>)
        ensures
            match r {
                Ok(response) => response@ == see_other_view(location.spec_bytes())
                    && valid_header_value(location.spec_bytes()),
                Err(e) => e == ReplayError::InvalidHeaderValue && !valid_header_value(
                    location.spec_bytes(),
                ),
            },
    {
        let value = location.as_bytes_vec();
        if header_value_accepted(value.as_slice()) {
            Ok(SavedHttpResponse::redirect(location))
        } else {
            Err(ReplayError::InvalidHeaderValue)
        }
    }

    /// The status code, from 100 to 999.
    pub fn status_code(&self) -> (code: u16)
        ensures
            code as int == self@.status_code,
            valid_status_code(code as int),
    {
        proof {
            use_type_invariant(self);
        }
        self.status_code
    }

    /// The header pairs, in the order in which they were recorded. Each has
    /// a legal name and a legal value.
    pub fn headers(&self) -> (headers: &Vec<HeaderPair>)
        ensures
            headers_view(headers@) == self@.headers,
            forall|i: int|
                0 <= i < headers.len() ==> valid_header_name((#[trigger] headers[i]).name@)
                    && valid_header_value(headers[i].value@),
    {
        proof {
            use_type_invariant(self);
            lemma_replayable_parts(self@);
            assert forall|i: int| 0 <= i < self.headers.len() implies valid_header_name(
                (#[trigger] self.headers[i]).name@,
            ) && valid_header_value(self.headers[i].value@) by {
                assert(self@.headers[i] == self.headers@[i]@);
                assert(valid_header_name(self@.headers[i].name));
            }
        }
        &self.headers
    }

    /// The raw body.
    pub fn body(&self) -> (body: &Vec<u8>)
        ensures
            body@ == self@.body,
    {
        &self.body
    }
}

/// In a replayable snapshot the status code is legal and so is every header.
pub proof fn lemma_replayable_parts(v: ResponseView)
    requires
        replayable(v),
    ensures
        valid_status_code(v.status_code),
        forall|i: int|
            0 <= i < v.headers.len() ==> valid_header_name(#[trigger] v.headers[i].name)
                && valid_header_value(v.headers[i].value),
{
    let headers = v.headers;
    lemma_no_fault_from(headers, 0);
    assert forall|i: int| 0 <= i < v.headers.len() implies valid_header_name(
        #[trigger] v.headers[i].name,
    ) && valid_header_value(v.headers[i].value) by {
        assert(valid_header_name(headers[i].name));
    }
}

/// Where no fault is found from `from` on, every header from there on is
/// well formed.
pub proof fn lemma_no_fault_from(headers: Seq<HeaderPairView>, from: int)
    requires
        0 <= from,
        header_fault_from(headers, from) is None,
    ensures
        forall|i: int|
            from <= i < headers.len() ==> valid_header_name(#[trigger] headers[i].name)
                && valid_header_value(headers[i].value),
    decreases headers.len() - from,
{
    if from < headers.len() {
        lemma_no_fault_from(headers, from + 1);
    }
}

} // verus!
