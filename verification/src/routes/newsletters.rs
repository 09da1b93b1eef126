//! Publishing over the API: the credentials of the request, the subscribers
//! that an issue goes to, and how a failure is answered.

use crate::authentication::password::Credentials;
use crate::domain::subscriber_email::{invalid_email_message, valid_email, SubscriberEmail};
use crate::idempotency::response::{
    header_fault_from, headers_view, valid_name_char, valid_value_byte, HeaderPair, HeaderPairView,
    ResponseView, SavedHttpResponse,
};
use crate::newsletter::{Newsletter, NewsletterView};
use crate::text::{chars_of, string_between, text_of_utf8};
use vstd::prelude::*;
use vstd::string::*;

verus! {

/// The two bodies of a newsletter as the API takes them.
#[derive(Debug)]
pub struct Content {
    pub html: String,
    pub text: String,
}

/// A newsletter as the API takes it.
#[derive(Debug)]
pub struct BodyData {
    pub title: String,
    pub content: Content,
}

impl BodyData {
    /// The newsletter that the body describes, field for field.
    pub fn into_newsletter(self) -> (newsletter: Newsletter)
        ensures
            newsletter@ == (NewsletterView {
                title: self.title@,
                html_content: self.content.html@,
                text_content: self.content.text@,
            }),
    {
        Newsletter {
            title: self.title,
            html_content: self.content.html,
            text_content: self.content.text,
        }
    }
}

/// A subscriber who has confirmed the subscription.
#[derive(Debug)]
pub struct ConfirmedSubscriber {
    pub email: SubscriberEmail,
}

/// Reads the stored addresses of the confirmed subscribers: for each, in
/// order, the subscriber where the address is an email address, and the
/// refusal that quotes it where it is not.
pub fn get_confirmed_subscribers(emails: Vec<String>) -> (rows: Vec<Result<ConfirmedSubscriber, String>>)
    ensures
        rows.len() == emails.len(),
        forall|i: int|
            0 <= i < rows.len() ==> match #[trigger] rows[i] {
                Ok(subscriber) => valid_email(emails[i]@) && subscriber.email@ == emails[i]@,
                Err(message) => !valid_email(emails[i]@) && message@ == invalid_email_message(
                    emails[i]@,
                ),
            },
{
    let mut rows: Vec<Result<ConfirmedSubscriber, String>> = Vec::new();
    let mut i: usize = 0;
    while i < emails.len()
        invariant
            i <= emails.len(),
            rows.len() == i,
            forall|j: int|
                0 <= j < i ==> match #[trigger] rows[j] {
                    Ok(subscriber) => valid_email(emails[j]@) && subscriber.email@ == emails[j]@,
                    Err(message) => !valid_email(emails[j]@) && message@ == invalid_email_message(
                        emails[j]@,
                    ),
                },
        decreases emails.len() - i,
    {
        let row = match SubscriberEmail::parse(emails[i].clone()) {
            Ok(email) => Ok(ConfirmedSubscriber { email }),
            Err(error) => Err(error),
        };
        rows.push(row);
        i += 1;
    }
    rows
}

/// Why a request to publish over the API failed.
#[derive(Debug)]
pub enum PublishNewsletterError {
    /// The request carries no valid credentials.
    AuthError(String),
    /// Something else went wrong.
    UnexpectedError(String),
}

/// The answer to a request without valid credentials: status 401 and a
/// challenge for the realm `publish`.
pub open spec fn unauthorized_response() -> ResponseView {
    ResponseView {
        status_code: 401,
        headers: seq![
            HeaderPairView {
                name: "www-authenticate"@,
                value: Seq::new(
                    "Basic realm=\"publish\""@.len(),
                    |i: int| "Basic realm=\"publish\""@[i] as u8,
                ),
            },
        ],
        body: Seq::empty(),
    }
}

/// The answer to a request that failed for another reason: status 500,
/// nothing else.
pub open spec fn server_error_response() -> ResponseView {
    ResponseView { status_code: 500, headers: Seq::empty(), body: Seq::empty() }
}

impl PublishNewsletterError {
    /// The error's text: wrong credentials are never explained.
    pub fn message(&self) -> (text: &str)
        ensures
            text@ == (match self {
                PublishNewsletterError::AuthError(_) => "Authentication failed."@,
                PublishNewsletterError::UnexpectedError(why) => why@,
            }),
    {
        match self {
            PublishNewsletterError::AuthError(_) => "Authentication failed.",
            PublishNewsletterError::UnexpectedError(why) => why.as_str(),
        }
    }

    /// The response with which the error is answered.
    pub fn error_response(&self) -> (response: SavedHttpResponse)
        ensures
            response@ == (match self {
                PublishNewsletterError::AuthError(_) => unauthorized_response(),
                PublishNewsletterError::UnexpectedError(_) => server_error_response(),
            }),
    {
        match self {
            PublishNewsletterError::AuthError(_) => {
                let challenge = "Basic realm=\"publish\"";
                let mut headers: Vec<HeaderPair> = Vec::new();
                headers.push(
                    HeaderPair {
                        name: String::from_str("www-authenticate"),
                        value: challenge.as_bytes_vec(),
                    },
                );
                proof {
                    reveal_strlit("www-authenticate");
                    reveal_strlit("Basic realm=\"publish\"");
                    assert(challenge.is_ascii());
                    vstd::string::is_ascii_spec_bytes(challenge);
                    let hv = headers_view(headers@);
                    assert(hv =~= unauthorized_response().headers);
                    let name = hv[0].name;
                    assert forall|i: int| 0 <= i < name.len() implies valid_name_char(
                        #[trigger] name[i],
                    ) by {}
                    let value = hv[0].value;
                    assert forall|i: int| 0 <= i < value.len() implies valid_value_byte(
                        #[trigger] value[i],
                    ) by {}
                    assert(header_fault_from(hv, 1) is None);
                    assert(header_fault_from(hv, 0) is None);
                }
                SavedHttpResponse::build(401, headers, Vec::new())
            },
            PublishNewsletterError::UnexpectedError(_) => {
                let headers: Vec<HeaderPair> = Vec::new();
                proof {
                    assert(headers_view(headers@) =~= Seq::<HeaderPairView>::empty());
                    assert(header_fault_from(headers_view(headers@), 0) is None);
                }
                SavedHttpResponse::build(500, headers, Vec::new())
            },
        }
    }
}

/// Why a request carries no credentials that can be read.
#[derive(Clone, Copy, Debug, PartialEq, Eq, Structural)]
pub enum BasicAuthError {
    /// There is no `Authorization` header.
    MissingHeader,
    /// The header's value is not visible ASCII text.
    NotText,
    /// The header's value does not begin with `Basic `.
    NotBasic,
    /// What follows `Basic ` is not base64.
    NotBase64,
    /// The decoded credentials are not UTF-8.
    NotUtf8,
    /// The decoded credentials hold no colon, and so no password.
    MissingPassword,
}

impl BasicAuthError {
    /// The error's text.
    pub fn message(&self) -> (text: &'static str)
        ensures
            text@ == (match self {
                BasicAuthError::MissingHeader => "The 'Authorization' was missing."@,
                BasicAuthError::NotText => "The 'Authorization' header value was not a valid UTF8 string."@,
                BasicAuthError::NotBasic => "The authorization scheme was not 'baisc'."@,
                BasicAuthError::NotBase64 => "Failed to decode base64-decode 'basic' credentials."@,
                BasicAuthError::NotUtf8 => "The decoded credential string is not a valid UTF8."@,
                BasicAuthError::MissingPassword => "A password must be provided in 'basic' auth."@,
            }),
    {
        match self {
            BasicAuthError::MissingHeader => "The 'Authorization' was missing.",
            BasicAuthError::NotText => "The 'Authorization' header value was not a valid UTF8 string.",
            BasicAuthError::NotBasic => "The authorization scheme was not 'baisc'.",
            BasicAuthError::NotBase64 => "Failed to decode base64-decode 'basic' credentials.",
            BasicAuthError::NotUtf8 => "The decoded credential string is not a valid UTF8.",
            BasicAuthError::MissingPassword => "A password must be provided in 'basic' auth.",
        }
    }
}

/// A byte of visible ASCII text: printable, a space or a tab.
pub open spec fn visible_ascii(b: u8) -> bool {
    (32 <= b < 127) || b == 9
}

/// Whether every byte is visible ASCII.
pub open spec fn is_visible_text(value: Seq<u8>) -> bool {
    forall|i: int| 0 <= i < value.len() ==> visible_ascii(#[trigger] value[i])
}

/// The bytes of `Basic `, the scheme and the space behind it.
pub open spec fn basic_prefix() -> Seq<u8> {
    seq![66u8, 97u8, 115u8, 105u8, 99u8, 32u8]
}

/// What the standard base64 engine decodes an input to, or `None` where it
/// refuses the input.
pub uninterp spec fn base64_decoded(input: Seq<u8>) -> Option<Seq<u8>>;

/// The position of the first colon at or after `from`, or the length of the
/// text where there is none.
pub open spec fn first_colon_from(text: Seq<char>, from: int) -> int
    decreases text.len() - from,
{
    if from < 0 || from >= text.len() {
        text.len() as int
    } else if text[from] == ':' {
        from
    } else {
        first_colon_from(text, from + 1)
    }
}

/// The user name and password that the value of an `Authorization` header
/// carries, `None` standing for a request without the header. The value must
/// be visible text that begins with `Basic `; the rest must be the base64 of
/// UTF-8 text with a colon in it; the user name is what stands before the
/// first colon, the password what stands behind it.
pub open spec fn basic_credentials(header: Option<Seq<u8>>) -> Result<
    (Seq<char>, Seq<char>),
    BasicAuthError,
> {
    match header {
        None => Err(BasicAuthError::MissingHeader),
        Some(value) => if !is_visible_text(value) {
            Err(BasicAuthError::NotText)
        } else if !(value.len() >= 6 && value.take(6) == basic_prefix()) {
            Err(BasicAuthError::NotBasic)
        } else {
            match base64_decoded(value.skip(6)) {
                None => Err(BasicAuthError::NotBase64),
                Some(bytes) => if !vstd::utf8::valid_utf8(bytes) {
                    Err(BasicAuthError::NotUtf8)
                } else {
                    let text = vstd::utf8::decode_utf8(bytes);
                    let at = first_colon_from(text, 0);
                    if at >= text.len() {
                        Err(BasicAuthError::MissingPassword)
                    } else {
                        Ok((text.take(at), text.skip(at + 1)))
                    }
                },
            }
        },
    }
}

/// `Engine::decode` of `general_purpose::STANDARD`: the decoded bytes, or
/// `None` where the input is not base64 of the standard alphabet with
/// canonical padding. The outcome depends on the input alone.
#[verifier::external_body]
fn decode_base64(input: &[u8]) -> (decoded: Option<Vec<u8>>)
    ensures
        match decoded {
            Some(bytes) => base64_decoded(input@) == Some(bytes@),
            None => base64_decoded(input@) is None,
        },
{
    base64::Engine::decode(&base64::engine::general_purpose::STANDARD, input).ok()
}

/// Decides whether every byte is visible ASCII.
fn visible_text(value: &Vec<u8>) -> (b: bool)
    ensures
        b == is_visible_text(value@),
{
    let mut i: usize = 0;
    while i < value.len()
        invariant
            i <= value.len(),
            forall|j: int| 0 <= j < i ==> visible_ascii(#[trigger] value@[j]),
        decreases value.len() - i,
    {
        let b = value[i];
        if !((32 <= b && b < 127) || b == 9) {
            return false;
        }
        i += 1;
    }
    true
}

/// What follows `Basic ` in the value, or `None` where the value does not
/// begin with it.
fn strip_basic(value: &Vec<u8>) -> (rest: Option<Vec<u8>>)
    ensures
        match rest {
            Some(bytes) => value@.len() >= 6 && value@.take(6) == basic_prefix() && bytes@
                == value@.skip(6),
            None => !(value@.len() >= 6 && value@.take(6) == basic_prefix()),
        },
{
    if value.len() < 6 {
        return None;
    }
    if !(value[0] == 66 && value[1] == 97 && value[2] == 115 && value[3] == 105 && value[4] == 99
        && value[5] == 32) {
        proof {
            if value@.take(6) == basic_prefix() {
                assert(value@.take(6)[0] == 66 && value@.take(6)[1] == 97 && value@.take(6)[2] == 115
                    && value@.take(6)[3] == 105 && value@.take(6)[4] == 99 && value@.take(6)[5]
                    == 32);
            }
        }
        return None;
    }
    assert(value@.take(6) =~= basic_prefix());
    let mut rest: Vec<u8> = Vec::new();
    let mut i: usize = 6;
    while i < value.len()
        invariant
            6 <= i <= value.len(),
            rest@ == value@.subrange(6, i as int),
        decreases value.len() - i,
    {
        rest.push(value[i]);
        proof {
            assert(value@.subrange(6, i + 1) =~= value@.subrange(6, i as int).push(value@[i as int]));
        }
        i += 1;
    }
    assert(value@.subrange(6, value@.len() as int) =~= value@.skip(6));
    Some(rest)
}

/// The position of the first colon.
fn first_colon(text: &Vec<char>) -> (at: usize)
    ensures
        at == first_colon_from(text@, 0),
        at <= text.len(),
{
    let mut i: usize = 0;
    while i < text.len()
        invariant
            i <= text.len(),
            first_colon_from(text@, 0) == first_colon_from(text@, i as int),
        decreases text.len() - i,
    {
        if text[i] == ':' {
            return i;
        }
        i += 1;
    }
    i
}

/// The view of what reading the credentials returns.
pub open spec fn credentials_view(r: Result<Credentials, BasicAuthError>) -> Result<
    (Seq<char>, Seq<char>),
    BasicAuthError,
> {
    match r {
        Ok(credentials) => Ok((credentials.username@, credentials.password@)),
        Err(e) => Err(e),
    }
}

/// Reads the credentials of a request from the value of its `Authorization`
/// header, `None` standing for a request without the header. See
/// `basic_credentials`.
pub fn basic_authentication(authorization: Option<Vec<u8>>) -> (r: Result<Credentials, BasicAuthError>)
    ensures
        credentials_view(r) == basic_credentials(
            match authorization {
                Some(value) => Some(value@),
                None => None,
            },
        ),
{
    let header_value = match authorization {
        None => {
            return Err(BasicAuthError::MissingHeader);
        },
        Some(value) => value,
    };
    if !visible_text(&header_value) {
        return Err(BasicAuthError::NotText);
    }
    let base64encoded_segment = match strip_basic(&header_value) {
        None => {
            return Err(BasicAuthError::NotBasic);
        },
        Some(rest) => rest,
    };
    let decoded_bytes = match decode_base64(base64encoded_segment.as_slice()) {
        None => {
            return Err(BasicAuthError::NotBase64);
        },
        Some(bytes) => bytes,
    };
    let decoded_credentials = match text_of_utf8(decoded_bytes) {
        None => {
            return Err(BasicAuthError::NotUtf8);
        },
        Some(text) => text,
    };
    let text = chars_of(decoded_credentials.as_str());
    let at = first_colon(&text);
    if at >= text.len() {
        return Err(BasicAuthError::MissingPassword);
    }
    let username = string_between(&text, 0, at);
    let password = string_between(&text, at + 1, text.len());
    proof {
        assert(text@.subrange(0, at as int) =~= text@.take(at as int));
        assert(text@.subrange(at + 1, text@.len() as int) =~= text@.skip(at + 1));
    }
    Ok(Credentials { username, password })
}

} // verus!
