//! What is sent to the email service, and how its answer is read.

use crate::domain::subscriber_email::SubscriberEmail;
use crate::issue_delivery_worker::SendOutcome;
use vstd::prelude::*;
use vstd::string::*;

verus! {

/// The path of the service's endpoint for sending, relative to its base
/// address.
pub open spec fn send_path() -> Seq<char> {
    "email"@
}

/// The name of the header that carries the token of the service.
pub open spec fn token_header() -> Seq<char> {
    "X-Postmark-Server-Token"@
}

/// The body of a request to send one email.
#[derive(Debug)]
pub struct SendEmailRequest {
    pub from: String,
    pub to: String,
    pub subject: String,
    pub html_body: String,
    pub text_body: String,
}

/// What a `SendEmailRequest` holds.
pub struct SendEmailRequestView {
    pub from: Seq<char>,
    pub to: Seq<char>,
    pub subject: Seq<char>,
    pub html_body: Seq<char>,
    pub text_body: Seq<char>,
}

impl View for SendEmailRequest {
    type V = SendEmailRequestView;

    open spec fn view(&self) -> SendEmailRequestView {
        SendEmailRequestView {
            from: self.from@,
            to: self.to@,
            subject: self.subject@,
            html_body: self.html_body@,
            text_body: self.text_body@,
        }
    }
}

impl SendEmailRequest {
    /// The request that sends the given content from `sender` to `recipient`.
    pub fn new(
        sender: &SubscriberEmail,
        recipient: &SubscriberEmail,
        subject: &str,
        html_content: &str,
        text_content: &str,
    ) -> (request: SendEmailRequest)
        ensures
            request@ == (SendEmailRequestView {
                from: sender@,
                to: recipient@,
                subject: subject@,
                html_body: html_content@,
                text_body: text_content@,
            }),
    {
        SendEmailRequest {
            from: sender.as_ref().to_owned(),
            to: recipient.as_ref().to_owned(),
            subject: subject.to_owned(),
            html_body: html_content.to_owned(),
            text_body: text_content.to_owned(),
        }
    }
}

/// The path of the endpoint for sending.
pub fn endpoint_path() -> (path: &'static str)
    ensures
        path@ == send_path(),
{
    "email"
}

/// The name of the header that carries the token.
pub fn token_header_name() -> (name: &'static str)
    ensures
        name@ == token_header(),
{
    "X-Postmark-Server-Token"
}

/// Whether a status code of the service means that it took the email: it
/// does from 200 to 299.
pub open spec fn accepted(status_code: u16) -> bool {
    200 <= status_code < 300
}

/// How an attempt to send ended, given the status code of the service's
/// answer, `None` standing for no answer: delivered with a status that means
/// so, and otherwise a failure that may pass.
pub open spec fn outcome_of_status(status_code: Option<u16>) -> SendOutcome {
    match status_code {
        Some(code) => if accepted(code) {
            SendOutcome::Delivered
        } else {
            SendOutcome::RetryableFailure
        },
        None => SendOutcome::RetryableFailure,
    }
}

/// Reads the answer of the service: its status code, or `None` where no
/// answer came (the service could not be reached, or took too long). See
/// `outcome_of_status`.
pub fn outcome_of_answer(status_code: Option<u16>) -> (outcome: SendOutcome)
    ensures
        outcome == outcome_of_status(status_code),
{
    match status_code {
        Some(code) => {
            if 200 <= code && code < 300 {
                SendOutcome::Delivered
            } else {
                SendOutcome::RetryableFailure
            }
        },
        None => SendOutcome::RetryableFailure,
    }
}

} // verus!
