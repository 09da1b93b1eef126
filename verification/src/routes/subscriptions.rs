//! Subscribing: the errors of the request, the token that confirms a
//! subscription, and the email that carries it.

use vstd::prelude::*;
use vstd::string::*;

verus! {

/// The number of characters of a subscription token.
pub const TOKEN_LENGTH: usize = 25;

/// Why a subscription failed.
#[derive(Debug)]
pub enum SubscribeError {
    /// A field of the form is invalid: the caller's fault.
    ValidationError(String),
    /// The store or the email service failed.
    UnexpectedError(String),
}

impl SubscribeError {
    /// The HTTP status with which the error is answered.
    pub fn status_code(&self) -> (code: u16)
        ensures
            code == (match self {
                SubscribeError::ValidationError(_) => 400u16,
                SubscribeError::UnexpectedError(_) => 500u16,
            }),
    {
        match self {
            SubscribeError::ValidationError(_) => 400,
            SubscribeError::UnexpectedError(_) => 500,
        }
    }

    /// The error that a refusal of the form's fields becomes.
    pub fn from(e: String) -> (r: SubscribeError)
        ensures
            r is ValidationError,
            r->ValidationError_0@ == e@,
    {
        SubscribeError::ValidationError(e)
    }

    /// The error's text.
    pub fn message(&self) -> (text: &str)
        ensures
            text@ == (match self {
                SubscribeError::ValidationError(why) => why@,
                SubscribeError::UnexpectedError(why) => why@,
            }),
    {
        match self {
            SubscribeError::ValidationError(why) => why.as_str(),
            SubscribeError::UnexpectedError(why) => why.as_str(),
        }
    }
}

/// Which write of a subscription the store refused.
#[derive(Clone, Copy, Debug, PartialEq, Eq, Structural)]
pub enum InsertDatabaseError {
    StoreTokenError,
    InsertSubscriberError,
}

impl InsertDatabaseError {
    /// The error's text.
    pub fn message(&self) -> (text: &'static str)
        ensures
            text@ == (match self {
                InsertDatabaseError::StoreTokenError => "A database error was encountered while trying to store a subscription token."@,
                InsertDatabaseError::InsertSubscriberError => "A database error was encountered while trying to insert a new subscriber."@,
            }),
    {
        match self {
            InsertDatabaseError::StoreTokenError => "A database error was encountered while trying to store a subscription token.",
            InsertDatabaseError::InsertSubscriberError => "A database error was encountered while trying to insert a new subscriber.",
        }
    }
}

/// An ASCII letter or digit.
pub open spec fn is_alphanumeric(c: char) -> bool {
    ('A' <= c <= 'Z') || ('a' <= c <= 'z') || ('0' <= c <= '9')
}

/// What a subscription token looks like: `TOKEN_LENGTH` ASCII letters and
/// digits.
pub open spec fn is_token(s: Seq<char>) -> bool {
    &&& s.len() == TOKEN_LENGTH
    &&& forall|i: int| 0 <= i < s.len() ==> is_alphanumeric(#[trigger] s[i])
}

/// `Rng::sample` of the thread's random generator with the distribution
/// `Alphanumeric`, as a character: an ASCII letter or digit, drawn at random.
#[verifier::external_body]
fn random_alphanumeric() -> (c: char)
    ensures
        is_alphanumeric(c),
{
    char::from(rand::Rng::sample(&mut rand::thread_rng(), rand::distributions::Alphanumeric))
}

/// Draws a subscription token: `TOKEN_LENGTH` random ASCII letters and
/// digits.
pub fn generate_subscriber_token() -> (token: String)
    ensures
        is_token(token@),
{
    let mut token = String::new();
    let mut i: usize = 0;
    while i < TOKEN_LENGTH
        invariant
            i <= TOKEN_LENGTH,
            token@.len() == i,
            forall|j: int| 0 <= j < i ==> is_alphanumeric(#[trigger] token@[j]),
        decreases TOKEN_LENGTH - i,
    {
        token.push(random_alphanumeric());
        i += 1;
    }
    token
}

/// The path and query under which a subscription is confirmed with `token`.
pub open spec fn confirmation_path_of(token: Seq<char>) -> Seq<char> {
    "/subscriptions/confirm?subscription_token="@ + token
}

/// The HTML body of the confirmation email for a link.
pub open spec fn confirmation_html(link: Seq<char>) -> Seq<char> {
    "Welcome to our newsletter!<br /> Click <a href=\""@ + link
        + "\">here</a> to confrim your subscription."@
}

/// The plain text body of the confirmation email for a link.
pub open spec fn confirmation_text(link: Seq<char>) -> Seq<char> {
    "Welcome to our newsletter!\nPlease visit "@ + link + " to confrim your subscription."@
}

/// The address that `Url::join` makes of a base address and a reference, as
/// text, or `None` where the base is no address or the reference cannot be
/// joined to it.
pub uninterp spec fn joined_url(base: Seq<char>, reference: Seq<char>) -> Option<Seq<char>>;

/// `Url::parse` on the base and `Url::join` with the reference: the joined
/// address as text, `None` where either refuses. The outcome depends on the
/// two strings alone.
#[verifier::external_body]
fn join_url(base: &str, reference: &str) -> (joined: Option<String>)
    ensures
        match joined {
            Some(url) => joined_url(base@, reference@) == Some(url@),
            None => joined_url(base@, reference@) is None,
        },
{
    match reqwest::Url::parse(base) {
        Ok(parsed) => match parsed.join(reference) {
            Ok(joined) => Some(String::from(joined)),
            Err(_) => None,
        },
        Err(_) => None,
    }
}

/// The path and query under which a subscription is confirmed with `token`.
pub fn confirmation_path(subscription_token: &str) -> (path: String)
    ensures
        path@ == confirmation_path_of(subscription_token@),
{
    let mut path = String::from_str("/subscriptions/confirm?subscription_token=");
    path.append(subscription_token);
    path
}

/// The link that confirms a subscription with `token` on the application at
/// `base_url`, or `None` where no such link can be made.
pub fn confirmation_link(base_url: &str, subscription_token: &str) -> (link: Option<String>)
    ensures
        match link {
            Some(url) => joined_url(base_url@, confirmation_path_of(subscription_token@)) == Some(
                url@,
            ),
            None => joined_url(base_url@, confirmation_path_of(subscription_token@)) is None,
        },
{
    let path = confirmation_path(subscription_token);
    join_url(base_url, path.as_str())
}

/// The confirmation email: its subject and its two bodies.
#[derive(Debug)]
pub struct ConfirmationEmail {
    pub subject: String,
    pub html_body: String,
    pub text_body: String,
}

/// Writes the email that asks a new subscriber to follow
/// `confirmation_link`.
pub fn confirmation_email(confirmation_link: &str) -> (email: ConfirmationEmail)
    ensures
        email.subject@ == "Welcome!"@,
        email.html_body@ == confirmation_html(confirmation_link@),
        email.text_body@ == confirmation_text(confirmation_link@),
{
    let mut html_body = String::from_str("Welcome to our newsletter!<br /> Click <a href=\"");
    html_body.append(confirmation_link);
    html_body.append("\">here</a> to confrim your subscription.");
    let mut text_body = String::from_str("Welcome to our newsletter!\nPlease visit ");
    text_body.append(confirmation_link);
    text_body.append(" to confrim your subscription.");
    ConfirmationEmail { subject: String::from_str("Welcome!"), html_body, text_body }
}

} // verus!
